//! The launcher window: panes of tabs, the toasts over them, and the shared
//! launcher state.

use vstd::prelude::*;

use crate::config::{
    lemma_theme_label_round_trip, spec_theme_from, spec_theme_label, theme_label, Config, Root,
    ThemeName,
};
use crate::hotkey::Hotkey;
use crate::log::{is_error_event, LogEvent, LogLevel};
use crate::instance::{answers, empty_view, Action, Instance, Message, Task};

verus! {

/// What a tab shows.
#[derive(Debug)]
pub enum BufferKind {
    /// An instance.
    Instance(Instance),
    /// The list of recently opened instances.
    InstanceHistory,
    /// The launcher's log.
    Logs,
    /// The launcher's settings.
    Settings,
}

/// One tab of a pane.
#[derive(Debug)]
pub struct Tab {
    /// Identifies the tab among all tabs of the window.
    pub id: u64,
    pub buffer: BufferKind,
    /// Whether the tab is loading something.
    pub loading: bool,
}

/// The tabs of one pane, with the focused tab and the tabs under the mouse.
#[derive(Debug)]
pub struct PaneTabs {
    /// Identifies the pane among the panes of the window.
    pub id: u64,
    pub tabs: Vec<Tab>,
    /// The id of the focused tab.
    pub focus: Option<u64>,
    /// The id of the tab the mouse is over.
    pub hover: Option<u64>,
    /// The id of the tab a dragged tab is over.
    pub over: Option<u64>,
}

/// A notification shown over the window.
#[derive(Debug)]
pub struct Toast {
    pub title: String,
    pub body: String,
}

/// What has to follow the closing of a tab.
#[derive(Debug, Clone, Copy, PartialEq, Eq, Structural)]
pub enum Followup {
    /// Nothing.
    Nothing,
    /// The pane, now without tabs, is to be closed.
    ClosePane(u64),
    /// The only pane has no tab left: a new tab is to be opened.
    NewTab,
}

/// A message that a keyboard shortcut stands for.
#[derive(Debug, Clone, Copy, PartialEq, Eq, Structural)]
pub enum TabCommand {
    /// Close tab `1` of pane `0`.
    CloseTab(u64, u64),
    NewTab,
    RefreshTab,
}

/// The view of the window.
pub struct AppView {
    pub panes: Seq<PaneTabs>,
    pub focus: u64,
    pub toasts: Seq<Toast>,
    pub next_tab_id: u64,
    pub next_pane_id: u64,
    pub root: Root,
}

/// The position of the first pane with id `id`.
#[verifier::opaque]
pub open spec fn pane_pos(panes: Seq<PaneTabs>, id: u64) -> Option<int> {
    if exists|k: int| 0 <= k < panes.len() && #[trigger] panes[k].id == id && forall|j: int| 0 <= j < k ==> #[trigger] panes[j].id != id {
        Some(choose|k: int| 0 <= k < panes.len() && #[trigger] panes[k].id == id && forall|j: int| 0 <= j < k ==> #[trigger] panes[j].id != id)
    } else {
        None
    }
}

/// Where [`pane_pos`] finds a pane, there is a pane with that id.
pub proof fn lemma_pane_pos(panes: Seq<PaneTabs>, id: u64)
    ensures
        pane_pos(panes, id) matches Some(p) ==> 0 <= p < panes.len() && panes[p].id == id,
{
    reveal(pane_pos);
}

/// Where [`tab_pos`] finds a tab, there is a tab with that id.
pub proof fn lemma_tab_pos(tabs: Seq<Tab>, id: u64)
    ensures
        tab_pos(tabs, id) matches Some(i) ==> 0 <= i < tabs.len() && tabs[i].id == id,
{
    reveal(tab_pos);
}

/// The position of the first tab with id `id`.
#[verifier::opaque]
pub open spec fn tab_pos(tabs: Seq<Tab>, id: u64) -> Option<int> {
    if exists|k: int| 0 <= k < tabs.len() && #[trigger] tabs[k].id == id && forall|j: int| 0 <= j < k ==> #[trigger] tabs[j].id != id {
        Some(choose|k: int| 0 <= k < tabs.len() && #[trigger] tabs[k].id == id && forall|j: int| 0 <= j < k ==> #[trigger] tabs[j].id != id)
    } else {
        None
    }
}

/// The tab that takes the focus when the tab at `index` was removed from a
/// pane that now has `tabs`: the tab after it, or the one before it when it
/// was the last.
pub open spec fn focus_after_removal(tabs: Seq<Tab>, index: int) -> Option<u64> {
    let offset = if tabs.len() > 0 && index > 0 && index == tabs.len() { index - 1 } else { index };
    if 0 <= offset < tabs.len() { Some(tabs[offset].id) } else { None }
}


/// The ids of the tabs of `tabs`, in order, leaving out `id`.
pub open spec fn tab_ids_except(tabs: Seq<Tab>, id: u64) -> Seq<u64>
    decreases tabs.len(),
{
    if tabs.len() == 0 {
        Seq::empty()
    } else {
        let rest = tab_ids_except(tabs.drop_last(), id);
        if tabs.last().id != id { rest.push(tabs.last().id) } else { rest }
    }
}

/// The ids of all tabs of all panes, pane after pane, leaving out `id`.
pub open spec fn all_tab_ids_except(panes: Seq<PaneTabs>, id: u64) -> Seq<u64>
    decreases panes.len(),
{
    if panes.len() == 0 {
        Seq::empty()
    } else {
        all_tab_ids_except(panes.drop_last(), id) + tab_ids_except(panes.last().tabs@, id)
    }
}

/// The first pane, in pane order, that holds a tab with id `id`, and that
/// tab's position in it.
#[verifier::opaque]
pub open spec fn tab_location(panes: Seq<PaneTabs>, id: u64) -> Option<(int, int)> {
    if exists|k: int| 0 <= k < panes.len() && (#[trigger] tab_pos(panes[k].tabs@, id)) is Some
        && forall|j: int| 0 <= j < k ==> (#[trigger] tab_pos(panes[j].tabs@, id)) is None {
        let k = choose|k: int| 0 <= k < panes.len() && (#[trigger] tab_pos(panes[k].tabs@, id)) is Some
            && forall|j: int| 0 <= j < k ==> (#[trigger] tab_pos(panes[j].tabs@, id)) is None;
        Some((k, tab_pos(panes[k].tabs@, id)->0))
    } else {
        None
    }
}

/// `n` differs from `o` at most in pane `p`.
pub open spec fn only_pane_changed(o: AppView, n: AppView, p: int) -> bool {
    &&& n.panes.len() == o.panes.len()
    &&& n.focus == o.focus
    &&& n.toasts == o.toasts
    &&& n.next_tab_id == o.next_tab_id
    &&& n.next_pane_id == o.next_pane_id
    &&& n.root == o.root
    &&& forall|q: int| 0 <= q < o.panes.len() && q != p ==> #[trigger] n.panes[q] == o.panes[q]
}

/// What became of a message for the instance shown in a pane's focused tab.
#[derive(Debug)]
pub enum TabOutcome {
    /// The pane has no focused tab, or the tab shows no instance: nothing
    /// happened.
    NoInstance,
    /// The instance answered with this action. When the instance could not
    /// be opened, the tab now lists the recent instances instead, which are to
    /// be loaded; loading and loaded mark the tab; work is to be done.
    Answered(Action),
}

/// What a tab is asked to show.
#[derive(Debug)]
pub enum Open {
    /// The most recently used instance.
    RecentInstance,
    /// The instance in a game directory.
    InstanceAt(String),
    InstanceHistory,
    Logs,
    Settings,
}

/// What follows a request to show something in a tab.
#[derive(Debug)]
pub enum OpenOutcome {
    /// The pane has no focused tab: nothing happened.
    NoTab,
    /// The tab already shows that instance: it is to be refreshed instead.
    Refresh,
    /// The tab shows an instance being opened by this work.
    Instance(Task),
    /// The tab lists the recent instances, which are to be loaded.
    InstanceHistory,
    /// The tab shows the logs or the settings.
    Shown,
}

/// The kind of buffer a request opens.
pub open spec fn opens(what: Open, b: BufferKind) -> bool {
    match what {
        Open::RecentInstance => b matches BufferKind::Instance(inst) && empty_view(inst@),
        Open::InstanceAt(_) => b matches BufferKind::Instance(inst) && empty_view(inst@),
        Open::InstanceHistory => b is InstanceHistory,
        Open::Logs => b is Logs,
        Open::Settings => b is Settings,
    }
}

/// What dropping the focused tab on the tab `zones[0]` does: `o` is the
/// window before, `n` after, `r` the pane left without tabs that is to be
/// closed, if any.
pub open spec fn reorders(o: AppView, zones: Seq<u64>, n: AppView, r: Option<u64>) -> bool {
    if zones.len() == 0 || tab_location(o.panes, zones[0]) is None
        || pane_pos(o.panes, o.focus) is None {
        n == o && r is None
    } else {
        let (tp, ti) = tab_location(o.panes, zones[0])->0;
        let fp = pane_pos(o.panes, o.focus)->0;
        if o.panes[fp].focus is None || tab_pos(o.panes[fp].tabs@, o.panes[fp].focus->0) is None {
            n == o && r is None
        } else {
            let fi = tab_pos(o.panes[fp].tabs@, o.panes[fp].focus->0)->0;
            let moved = o.panes[fp].tabs@[fi];
            let rest = o.panes[fp].tabs@.remove(fi);
            if fp == tp {
                &&& only_pane_changed(o, n, fp)
                &&& n.panes[fp] == (PaneTabs {
                    tabs: n.panes[fp].tabs, hover: Some(moved.id), ..o.panes[fp]
                })
                &&& n.panes[fp].tabs@ == rest.insert(ti, moved)
                &&& r is None
            } else {
                &&& n.panes.len() == o.panes.len()
                &&& n.focus == o.focus && n.toasts == o.toasts && n.root == o.root
                &&& n.next_tab_id == o.next_tab_id && n.next_pane_id == o.next_pane_id
                &&& forall|q: int| 0 <= q < o.panes.len() && q != fp && q != tp ==> #[trigger] n.panes[q] == o.panes[q]
                &&& n.panes[fp] == (PaneTabs {
                    tabs: n.panes[fp].tabs, focus: focus_after_removal(rest, fi), ..o.panes[fp]
                })
                &&& n.panes[fp].tabs@ == rest
                &&& rest.len() > 0 ==> n.panes[fp].focus == Some(
                    if fi + 1 < o.panes[fp].tabs@.len() { o.panes[fp].tabs@[fi + 1].id } else { o.panes[fp].tabs@[fi - 1].id })
                &&& n.panes[tp] == (PaneTabs {
                    tabs: n.panes[tp].tabs, hover: Some(moved.id), ..o.panes[tp]
                })
                &&& n.panes[tp].tabs@ == o.panes[tp].tabs@.insert(ti, moved)
                &&& r == (if rest.len() == 0 && o.panes.len() > 1 { Some(o.focus) } else { None })
            }
        }
    }
}

/// The launcher window.
#[derive(Debug)]
pub struct App {
    panes: Vec<PaneTabs>,
    focus: u64,
    toasts: Vec<Toast>,
    next_tab_id: u64,
    next_pane_id: u64,
    root: Root,
}

impl View for App {
    type V = AppView;

    closed spec fn view(&self) -> AppView {
        AppView {
            panes: self.panes@,
            focus: self.focus,
            toasts: self.toasts@,
            next_tab_id: self.next_tab_id,
            next_pane_id: self.next_pane_id,
            root: self.root,
        }
    }
}

/// The first position in `v` whose id is `id`.
fn find_pane(v: &Vec<PaneTabs>, id: u64) -> (r: Option<usize>)
    ensures
        match r {
            Some(i) => pane_pos(v@, id) == Some(i as int) && i < v@.len() && v@[i as int].id == id,
            None => pane_pos(v@, id) is None,
        },
{
    let mut i: usize = 0;
    while i < v.len()
        invariant
            i <= v@.len(),
            forall|j: int| 0 <= j < i ==> #[trigger] v@[j].id != id,
        decreases v@.len() - i,
    {
        if v[i].id == id {
            proof {
                reveal(pane_pos);
                reveal(tab_pos);
                let k = choose|k: int| 0 <= k < v@.len() && #[trigger] v@[k].id == id && forall|j: int| 0 <= j < k ==> #[trigger] v@[j].id != id;
                if k < i { assert(v@[k].id != id); }
                if k > i { assert(v@[i as int].id != id); }
            }
            return Some(i);
        }
        i = i + 1;
    }
    proof {
        reveal(pane_pos);
        reveal(tab_pos);
    }
    None
}

/// The first position in `v` whose tab id is `id`.
fn find_tab(v: &Vec<Tab>, id: u64) -> (r: Option<usize>)
    ensures
        match r {
            Some(i) => tab_pos(v@, id) == Some(i as int) && i < v@.len() && v@[i as int].id == id,
            None => tab_pos(v@, id) is None,
        },
{
    let mut i: usize = 0;
    while i < v.len()
        invariant
            i <= v@.len(),
            forall|j: int| 0 <= j < i ==> #[trigger] v@[j].id != id,
        decreases v@.len() - i,
    {
        if v[i].id == id {
            proof {
                reveal(pane_pos);
                reveal(tab_pos);
                let k = choose|k: int| 0 <= k < v@.len() && #[trigger] v@[k].id == id && forall|j: int| 0 <= j < k ==> #[trigger] v@[j].id != id;
                if k < i { assert(v@[k].id != id); }
                if k > i { assert(v@[i as int].id != id); }
            }
            return Some(i);
        }
        i = i + 1;
    }
    proof {
        reveal(pane_pos);
        reveal(tab_pos);
    }
    None
}

/// Pane ids are distinct and below the next pane id.
pub open spec fn panes_wf(panes: Seq<PaneTabs>, next_pane_id: u64) -> bool {
    &&& forall|q: int| 0 <= q < panes.len() ==> #[trigger] panes[q].id < next_pane_id
    &&& forall|a: int, b: int| 0 <= a < panes.len() && 0 <= b < panes.len() && a != b ==> #[trigger] panes[a].id != #[trigger] panes[b].id
}

/// Every tab of every pane has an id below `next_tab_id`, and no two tabs,
/// in one pane or in two, share an id.
pub open spec fn tabs_wf(panes: Seq<PaneTabs>, next_tab_id: u64) -> bool {
    &&& forall|q: int, i: int| 0 <= q < panes.len() && 0 <= i < panes[q].tabs@.len()
        ==> #[trigger] panes[q].tabs@[i].id < next_tab_id
    &&& forall|q1: int, i1: int, q2: int, i2: int|
        0 <= q1 < panes.len() && 0 <= i1 < panes[q1].tabs@.len()
        && 0 <= q2 < panes.len() && 0 <= i2 < panes[q2].tabs@.len() && (q1 != q2 || i1 != i2)
        ==> #[trigger] panes[q1].tabs@[i1].id != #[trigger] panes[q2].tabs@[i2].id
}

/// Some tab of `tabs` has id `id`.
pub open spec fn has_tab_id(tabs: Seq<Tab>, id: u64) -> bool {
    exists|j: int| 0 <= j < tabs.len() && #[trigger] tabs[j].id == id
}

/// No two tabs of `tabs` share an id.
pub open spec fn distinct_tab_ids(tabs: Seq<Tab>) -> bool {
    forall|i: int, j: int| 0 <= i < tabs.len() && 0 <= j < tabs.len() && i != j
        ==> #[trigger] tabs[i].id != #[trigger] tabs[j].id
}

/// Where tab ids are distinct, the tab at `k` is the one [`tab_pos`] finds
/// for its id: an action on a tab id acts on that tab and no other.
pub proof fn lemma_tab_pos_of_distinct(tabs: Seq<Tab>, k: int)
    requires
        distinct_tab_ids(tabs),
        0 <= k < tabs.len(),
    ensures
        tab_pos(tabs, tabs[k].id) == Some(k),
{
    reveal(tab_pos);
    let id = tabs[k].id;
    assert(forall|j: int| 0 <= j < k ==> #[trigger] tabs[j].id != id);
    let c = choose|c: int| 0 <= c < tabs.len() && #[trigger] tabs[c].id == id && forall|j: int| 0 <= j < c ==> #[trigger] tabs[j].id != id;
    if c < k { assert(tabs[c].id != id); }
    if c > k { assert(tabs[k].id != id); }
}

/// In a well-formed window, each pane's tab ids are distinct.
pub proof fn lemma_tabs_wf_distinct(panes: Seq<PaneTabs>, next_tab_id: u64, q: int)
    requires
        tabs_wf(panes, next_tab_id),
        0 <= q < panes.len(),
    ensures
        distinct_tab_ids(panes[q].tabs@),
{
    assert forall|i: int, j: int| 0 <= i < panes[q].tabs@.len() && 0 <= j < panes[q].tabs@.len() && i != j
        implies #[trigger] panes[q].tabs@[i].id != #[trigger] panes[q].tabs@[j].id by {
        assert(panes[q].tabs@[i].id != panes[q].tabs@[j].id);
    }
}

/// Replacing pane `p` keeps the window well formed when the new pane's tab
/// ids are distinct, below `m` (at least `n`), and held by no other pane.
proof fn lemma_tabs_wf_update(panes: Seq<PaneTabs>, n: u64, m: u64, p: int, pane: PaneTabs)
    requires
        tabs_wf(panes, n),
        n <= m,
        0 <= p < panes.len(),
        distinct_tab_ids(pane.tabs@),
        forall|i: int| 0 <= i < pane.tabs@.len() ==> #[trigger] pane.tabs@[i].id < m,
        forall|q: int, j: int, i: int| 0 <= q < panes.len() && q != p && 0 <= j < panes[q].tabs@.len()
            && 0 <= i < pane.tabs@.len() ==> #[trigger] panes[q].tabs@[j].id != #[trigger] pane.tabs@[i].id,
    ensures
        tabs_wf(panes.update(p, pane), m),
{
    let u = panes.update(p, pane);
    assert forall|q: int, i: int| 0 <= q < u.len() && 0 <= i < u[q].tabs@.len() implies #[trigger] u[q].tabs@[i].id < m by {
        if q != p { assert(panes[q].tabs@[i].id < n); }
    }
    assert forall|q1: int, i1: int, q2: int, i2: int|
        0 <= q1 < u.len() && 0 <= i1 < u[q1].tabs@.len()
        && 0 <= q2 < u.len() && 0 <= i2 < u[q2].tabs@.len() && (q1 != q2 || i1 != i2)
        implies #[trigger] u[q1].tabs@[i1].id != #[trigger] u[q2].tabs@[i2].id by {
        if q1 == p && q2 == p {
        } else if q1 == p {
            assert(panes[q2].tabs@[i2].id != pane.tabs@[i1].id);
        } else if q2 == p {
            assert(panes[q1].tabs@[i1].id != pane.tabs@[i2].id);
        } else {
            assert(panes[q1].tabs@[i1].id != panes[q2].tabs@[i2].id);
        }
    }
}

/// Replacing pane `p` by one whose tab ids are distinct and all come from
/// pane `p` keeps the window well formed.
proof fn lemma_tabs_wf_sub(panes: Seq<PaneTabs>, n: u64, p: int, pane: PaneTabs)
    requires
        tabs_wf(panes, n),
        0 <= p < panes.len(),
        distinct_tab_ids(pane.tabs@),
        forall|i: int| 0 <= i < pane.tabs@.len() ==> has_tab_id(panes[p].tabs@, #[trigger] pane.tabs@[i].id),
    ensures
        tabs_wf(panes.update(p, pane), n),
{
    assert forall|i: int| 0 <= i < pane.tabs@.len() implies #[trigger] pane.tabs@[i].id < n by {
        assert(has_tab_id(panes[p].tabs@, pane.tabs@[i].id));
        let j = choose|j: int| 0 <= j < panes[p].tabs@.len() && #[trigger] panes[p].tabs@[j].id == pane.tabs@[i].id;
        assert(panes[p].tabs@[j].id < n);
    }
    assert forall|q: int, k: int, i: int| 0 <= q < panes.len() && q != p && 0 <= k < panes[q].tabs@.len()
        && 0 <= i < pane.tabs@.len() implies #[trigger] panes[q].tabs@[k].id != #[trigger] pane.tabs@[i].id by {
        assert(has_tab_id(panes[p].tabs@, pane.tabs@[i].id));
        let j = choose|j: int| 0 <= j < panes[p].tabs@.len() && #[trigger] panes[p].tabs@[j].id == pane.tabs@[i].id;
        assert(panes[q].tabs@[k].id != panes[p].tabs@[j].id);
    }
    lemma_tabs_wf_update(panes, n, n, p, pane);
}

/// Replacing pane `p` by one with the same tab ids, position by position,
/// keeps the window well formed.
proof fn lemma_tabs_wf_same_ids(panes: Seq<PaneTabs>, n: u64, p: int, pane: PaneTabs)
    requires
        tabs_wf(panes, n),
        0 <= p < panes.len(),
        pane.tabs@.len() == panes[p].tabs@.len(),
        forall|i: int| 0 <= i < pane.tabs@.len() ==> #[trigger] pane.tabs@[i].id == panes[p].tabs@[i].id,
    ensures
        tabs_wf(panes.update(p, pane), n),
{
    lemma_tabs_wf_distinct(panes, n, p);
    assert forall|i: int, j: int| 0 <= i < pane.tabs@.len() && 0 <= j < pane.tabs@.len() && i != j
        implies #[trigger] pane.tabs@[i].id != #[trigger] pane.tabs@[j].id by {
        assert(panes[p].tabs@[i].id != panes[p].tabs@[j].id);
    }
    assert forall|i: int| 0 <= i < pane.tabs@.len() implies has_tab_id(panes[p].tabs@, #[trigger] pane.tabs@[i].id) by {
        assert(panes[p].tabs@[i].id == pane.tabs@[i].id);
    }
    lemma_tabs_wf_sub(panes, n, p, pane);
}

/// Taking a pane out keeps the window well formed.
proof fn lemma_tabs_wf_remove(panes: Seq<PaneTabs>, n: u64, p: int)
    requires
        tabs_wf(panes, n),
        0 <= p < panes.len(),
    ensures
        tabs_wf(panes.remove(p), n),
{
    let r = panes.remove(p);
    assert forall|q: int, i: int| 0 <= q < r.len() && 0 <= i < r[q].tabs@.len() implies #[trigger] r[q].tabs@[i].id < n by {
        let q0 = if q < p { q } else { q + 1 };
        assert(r[q] == panes[q0]);
        assert(panes[q0].tabs@[i].id < n);
    }
    assert forall|q1: int, i1: int, q2: int, i2: int|
        0 <= q1 < r.len() && 0 <= i1 < r[q1].tabs@.len()
        && 0 <= q2 < r.len() && 0 <= i2 < r[q2].tabs@.len() && (q1 != q2 || i1 != i2)
        implies #[trigger] r[q1].tabs@[i1].id != #[trigger] r[q2].tabs@[i2].id by {
        let a = if q1 < p { q1 } else { q1 + 1 };
        let b = if q2 < p { q2 } else { q2 + 1 };
        assert(r[q1] == panes[a]);
        assert(r[q2] == panes[b]);
        assert(panes[a].tabs@[i1].id != panes[b].tabs@[i2].id);
    }
}

/// Taking tab `i` out of a pane leaves its other tabs' ids distinct, each
/// one an id of the pane before.
proof fn lemma_tabs_remove(tabs: Seq<Tab>, i: int)
    requires
        distinct_tab_ids(tabs),
        0 <= i < tabs.len(),
    ensures
        distinct_tab_ids(tabs.remove(i)),
        forall|k: int| 0 <= k < tabs.remove(i).len() ==> has_tab_id(tabs, #[trigger] tabs.remove(i)[k].id),
        forall|k: int| 0 <= k < tabs.remove(i).len() ==> #[trigger] tabs.remove(i)[k].id != tabs[i].id,
{
    let r = tabs.remove(i);
    assert forall|a: int, b: int| 0 <= a < r.len() && 0 <= b < r.len() && a != b
        implies #[trigger] r[a].id != #[trigger] r[b].id by {
        let a0 = if a < i { a } else { a + 1 };
        let b0 = if b < i { b } else { b + 1 };
        assert(r[a] == tabs[a0]);
        assert(r[b] == tabs[b0]);
    }
    assert forall|k: int| 0 <= k < r.len() implies has_tab_id(tabs, #[trigger] r[k].id) && r[k].id != tabs[i].id by {
        let k0 = if k < i { k } else { k + 1 };
        assert(r[k] == tabs[k0]);
        assert(tabs[k0].id == r[k].id);
    }
}

/// Putting a tab whose id no tab of `tabs` has into `tabs` keeps their ids
/// distinct.
proof fn lemma_tabs_insert(tabs: Seq<Tab>, i: int, t: Tab)
    requires
        distinct_tab_ids(tabs),
        0 <= i <= tabs.len(),
        forall|k: int| 0 <= k < tabs.len() ==> #[trigger] tabs[k].id != t.id,
    ensures
        distinct_tab_ids(tabs.insert(i, t)),
        forall|k: int| 0 <= k < tabs.insert(i, t).len() ==> #[trigger] tabs.insert(i, t)[k].id == t.id
            || has_tab_id(tabs, tabs.insert(i, t)[k].id),
{
    let r = tabs.insert(i, t);
    assert forall|a: int, b: int| 0 <= a < r.len() && 0 <= b < r.len() && a != b
        implies #[trigger] r[a].id != #[trigger] r[b].id by {
        if a != i && b != i {
            let a0 = if a < i { a } else { a - 1 };
            let b0 = if b < i { b } else { b - 1 };
            assert(r[a] == tabs[a0]);
            assert(r[b] == tabs[b0]);
        } else if a == i {
            let b0 = if b < i { b } else { b - 1 };
            assert(r[b] == tabs[b0]);
        } else {
            let a0 = if a < i { a } else { a - 1 };
            assert(r[a] == tabs[a0]);
        }
    }
    assert forall|k: int| 0 <= k < r.len() implies #[trigger] r[k].id == t.id
        || has_tab_id(tabs, r[k].id) by {
        if k != i {
            let k0 = if k < i { k } else { k - 1 };
            assert(r[k] == tabs[k0]);
            assert(tabs[k0].id == r[k].id);
        }
    }
}

/// A larger bound keeps the window well formed.
proof fn lemma_tabs_wf_raise(panes: Seq<PaneTabs>, n: u64, m: u64)
    requires
        tabs_wf(panes, n),
        n <= m,
    ensures
        tabs_wf(panes, m),
{
    assert forall|q: int, i: int| 0 <= q < panes.len() && 0 <= i < panes[q].tabs@.len()
        implies #[trigger] panes[q].tabs@[i].id < m by {
        assert(panes[q].tabs@[i].id < n);
    }
}

/// A new pane holding one tab with id `n` keeps the window well formed, with
/// the next tab id past `n`.
proof fn lemma_tabs_wf_push_pane(panes: Seq<PaneTabs>, n: u64, pane: PaneTabs)
    requires
        tabs_wf(panes, n),
        n < u64::MAX,
        pane.tabs@.len() == 1,
        pane.tabs@[0].id == n,
    ensures
        tabs_wf(panes.push(pane), (n + 1) as u64),
{
    let u = panes.push(pane);
    assert forall|q: int, i: int| 0 <= q < u.len() && 0 <= i < u[q].tabs@.len() implies #[trigger] u[q].tabs@[i].id < n + 1 by {
        if q < panes.len() { assert(panes[q].tabs@[i].id < n); }
    }
    assert forall|q1: int, i1: int, q2: int, i2: int|
        0 <= q1 < u.len() && 0 <= i1 < u[q1].tabs@.len()
        && 0 <= q2 < u.len() && 0 <= i2 < u[q2].tabs@.len() && (q1 != q2 || i1 != i2)
        implies #[trigger] u[q1].tabs@[i1].id != #[trigger] u[q2].tabs@[i2].id by {
        if q1 < panes.len() && q2 < panes.len() {
            assert(panes[q1].tabs@[i1].id != panes[q2].tabs@[i2].id);
        } else if q1 < panes.len() {
            assert(panes[q1].tabs@[i1].id < n);
        } else if q2 < panes.len() {
            assert(panes[q2].tabs@[i2].id < n);
        }
    }
}

/// Putting a tab whose id is below `n` and held by no pane into pane `q`
/// keeps the window well formed.
proof fn lemma_tabs_wf_insert_tab(panes: Seq<PaneTabs>, n: u64, q: int, i: int, t: Tab, pane: PaneTabs)
    requires
        tabs_wf(panes, n),
        0 <= q < panes.len(),
        0 <= i <= panes[q].tabs@.len(),
        t.id < n,
        forall|q2: int, j: int| 0 <= q2 < panes.len() && 0 <= j < panes[q2].tabs@.len() ==> #[trigger] panes[q2].tabs@[j].id != t.id,
        pane.tabs@ == panes[q].tabs@.insert(i, t),
    ensures
        tabs_wf(panes.update(q, pane), n),
{
    let old_tabs = panes[q].tabs@;
    lemma_tabs_wf_distinct(panes, n, q);
    assert forall|k: int| 0 <= k < old_tabs.len() implies #[trigger] old_tabs[k].id != t.id by {
        assert(panes[q].tabs@[k].id != t.id);
    }
    lemma_tabs_insert(old_tabs, i, t);
    let nt = pane.tabs@;
    assert forall|k: int| 0 <= k < nt.len() implies #[trigger] nt[k].id < n by {
        if k < i { assert(nt[k] == old_tabs[k]); assert(panes[q].tabs@[k].id < n); }
        else if k > i { assert(nt[k] == old_tabs[k - 1]); assert(panes[q].tabs@[k - 1].id < n); }
    }
    assert forall|q2: int, j: int, k: int| 0 <= q2 < panes.len() && q2 != q && 0 <= j < panes[q2].tabs@.len()
        && 0 <= k < nt.len() implies #[trigger] panes[q2].tabs@[j].id != #[trigger] nt[k].id by {
        if k < i {
            assert(nt[k] == old_tabs[k]);
            assert(panes[q2].tabs@[j].id != panes[q].tabs@[k].id);
        } else if k > i {
            assert(nt[k] == old_tabs[k - 1]);
            assert(panes[q2].tabs@[j].id != panes[q].tabs@[k - 1].id);
        }
    }
    lemma_tabs_wf_update(panes, n, n, q, pane);
}

impl App {
    #[verifier::type_invariant]
    closed spec fn inv(self) -> bool {
        &&& panes_wf(self.panes@, self.next_pane_id)
        &&& tabs_wf(self.panes@, self.next_tab_id)
    }

    /// A window with one pane that holds one tab listing the recent
    /// instances, focused.
    pub fn new() -> (r: App)
        ensures
            r@.panes.len() == 1,
            r@.focus == r@.panes[0].id,
            r@.panes[0].tabs@.len() == 1,
            r@.panes[0].tabs@[0].buffer is InstanceHistory,
            r@.panes[0].focus == Some(r@.panes[0].tabs@[0].id),
            r@.panes[0].hover is None,
            r@.panes[0].over is None,
            r@.toasts.len() == 0,
            r@.root.spec_config().spec_theme() == spec_theme_label(ThemeName::Ferra),
            r@.root.spec_loading(),
            r@.root.spec_logs().len() == 0,
            r@.root.spec_theme() == ThemeName::Ferra,
    {
        let tab = Tab { id: 1, buffer: BufferKind::InstanceHistory, loading: false };
        let pane = PaneTabs { id: 0, tabs: vec![tab], focus: Some(1), hover: None, over: None };
        App { panes: vec![pane], focus: 0, toasts: Vec::new(), next_tab_id: 2, next_pane_id: 1, root: Root::default() }
    }

    /// The launcher-wide state.
    pub fn root(&self) -> (r: &Root)
        ensures
            *r == self@.root,
    {
        &self.root
    }

    /// The panes, in the order they were made.
    pub fn panes(&self) -> (r: &Vec<PaneTabs>)
        ensures
            r@ == self@.panes,
            tabs_wf(self@.panes, self@.next_tab_id),
    {
        proof { use_type_invariant(self); }
        &self.panes
    }

    /// The id of the focused pane.
    pub fn focus(&self) -> (r: u64)
        ensures
            r == self@.focus,
    {
        self.focus
    }

    /// The toasts shown, oldest first.
    pub fn toasts(&self) -> (r: &Vec<Toast>)
        ensures
            r@ == self@.toasts,
    {
        &self.toasts
    }

    /// Closes the toast at `index`, if there is one.
    pub fn closed_toast(&mut self, index: usize)
        ensures
            final(self)@ == (AppView {
                toasts: if index < old(self)@.toasts.len() { old(self)@.toasts.remove(index as int) } else { old(self)@.toasts },
                ..old(self)@
            }),
    {
        proof { use_type_invariant(&*self); }
        if index < self.toasts.len() {
            let mut toasts: Vec<Toast> = Vec::new();
            std::mem::swap(&mut toasts, &mut self.toasts);
            toasts.remove(index);
            self.toasts = toasts;
        }
    }

    /// The launcher finished loading its settings.
    pub fn loaded(&mut self)
        ensures
            final(self)@ == (AppView { root: final(self)@.root, ..old(self)@ }),
            !final(self)@.root.spec_loading(),
            final(self)@.root.spec_config() == old(self)@.root.spec_config(),
            final(self)@.root.spec_logs() == old(self)@.root.spec_logs(),
            final(self)@.root.spec_theme() == old(self)@.root.spec_theme(),
    {
        proof { use_type_invariant(&*self); }
        let mut root = Root::default();
        std::mem::swap(&mut root, &mut self.root);
        root.finish_loading();
        self.root = root;
    }

    /// Freshly read settings: see [`Root::refresh_config`].
    pub fn refresh_config(&mut self, config: Config)
        ensures
            final(self)@ == (AppView { root: final(self)@.root, ..old(self)@ }),
            final(self)@.root.spec_config() == config,
            final(self)@.root.spec_loading() == old(self)@.root.spec_loading(),
            final(self)@.root.spec_logs() == old(self)@.root.spec_logs(),
            final(self)@.root.spec_theme() == (match spec_theme_from(config.spec_theme()) {
                Some(t) => t,
                None => old(self)@.root.spec_theme(),
            }),
    {
        proof { use_type_invariant(&*self); }
        let mut root = Root::default();
        std::mem::swap(&mut root, &mut self.root);
        root.refresh_config(config);
        self.root = root;
    }

    /// A theme was picked in the settings tab: the settings to write, which are
    /// the current ones with the theme's name.
    pub fn theme_selected(&self, theme: ThemeName) -> (r: Config)
        ensures
            r.spec_theme() == spec_theme_label(theme),
    {
        self.root.config().clone().with_theme(theme_label(theme).to_owned())
    }

    /// A log event arrived: it is kept with the others, and when its first
    /// line is an error, that line is shown as an error toast.
    pub fn log(&mut self, event: LogEvent)
        ensures
            final(self)@.root.spec_logs() == old(self)@.root.spec_logs().push(event),
            final(self)@.root.spec_config() == old(self)@.root.spec_config(),
            final(self)@.root.spec_loading() == old(self)@.root.spec_loading(),
            final(self)@.root.spec_theme() == old(self)@.root.spec_theme(),
            final(self)@ == (AppView { root: final(self)@.root, toasts: final(self)@.toasts, ..old(self)@ }),
            is_error_event(event) ==> final(self)@.toasts == old(self)@.toasts.push(
                Toast { title: final(self)@.toasts.last().title, body: event.lines@[0].0 })
                && final(self)@.toasts.last().title@ == "Error"@,
            !is_error_event(event) ==> final(self)@.toasts == old(self)@.toasts,
            event.lines@.len() == 0 || event.lines@[0].1 != Some(LogLevel::Error)
                ==> final(self)@.toasts == old(self)@.toasts,
            event.lines@.len() > 0 && event.lines@[0].1 == Some(LogLevel::Error)
                ==> final(self)@.toasts == old(self)@.toasts.push(
                    Toast { title: final(self)@.toasts.last().title, body: event.lines@[0].0 })
                    && final(self)@.toasts.last().title@ == "Error"@,
    {
        proof { use_type_invariant(&*self); }
        if event.lines.len() > 0 {
            if let Some(LogLevel::Error) = event.lines[0].1 {
                let toast = Toast { title: "Error".to_owned(), body: event.lines[0].0.clone() };
                let mut toasts: Vec<Toast> = Vec::new();
                std::mem::swap(&mut toasts, &mut self.toasts);
                toasts.push(toast);
                self.toasts = toasts;
            }
        }
        let mut root = Root::default();
        std::mem::swap(&mut root, &mut self.root);
        root.record_log(event);
        self.root = root;
    }

    /// The message a keyboard shortcut stands for: closing the focused tab of
    /// the focused pane (when it has one), opening a tab, or refreshing one.
    pub fn hotkey(&self, hotkey: Hotkey) -> (r: Option<TabCommand>)
        ensures
            match hotkey {
                Hotkey::ClosedTab => match pane_pos(self@.panes, self@.focus) {
                    Some(p) => if self@.panes[p].tabs@.len() > 0 && self@.panes[p].focus is Some {
                        r == Some(TabCommand::CloseTab(self@.focus, self@.panes[p].focus->0))
                    } else {
                        r is None
                    },
                    None => r is None,
                },
                Hotkey::NewTab => r == Some(TabCommand::NewTab),
                Hotkey::RefreshTab => r == Some(TabCommand::RefreshTab),
            },
    {
        match hotkey {
            Hotkey::ClosedTab => {
                match find_pane(&self.panes, self.focus) {
                    Some(p) => {
                        let pane = &self.panes[p];
                        if pane.tabs.len() > 0 {
                            if let Some(t) = pane.focus {
                                return Some(TabCommand::CloseTab(self.focus, t));
                            }
                        }
                        None
                    },
                    None => None,
                }
            },
            Hotkey::NewTab => Some(TabCommand::NewTab),
            Hotkey::RefreshTab => Some(TabCommand::RefreshTab),
        }
    }

    /// Focuses pane `pane`.
    pub fn clicked_pane(&mut self, pane: u64)
        ensures
            final(self)@ == (AppView { focus: pane, ..old(self)@ }),
    {
        proof { use_type_invariant(&*self); }
        self.focus = pane;
    }

    /// Takes pane `p` out of the panes, to be changed and put back.
    fn take_pane(&mut self, p: usize) -> (r: PaneTabs)
        requires
            p < old(self)@.panes.len(),
        ensures
            r == old(self)@.panes[p as int],
            final(self)@ == (AppView { panes: old(self)@.panes.remove(p as int), ..old(self)@ }),
            panes_wf(old(self)@.panes, old(self)@.next_pane_id),
            tabs_wf(old(self)@.panes, old(self)@.next_tab_id),
    {
        proof { use_type_invariant(&*self); }
        let mut panes: Vec<PaneTabs> = Vec::new();
        std::mem::swap(&mut panes, &mut self.panes);
        let r = panes.remove(p);
        proof {
            assert forall|a: int, b: int| 0 <= a < panes@.len() && 0 <= b < panes@.len() && a != b
                implies #[trigger] panes@[a].id != #[trigger] panes@[b].id by {
                let a0 = if a < p { a } else { a + 1 };
                let b0 = if b < p { b } else { b + 1 };
                assert(panes@[a] == old(self)@.panes[a0]);
                assert(panes@[b] == old(self)@.panes[b0]);
            }
            assert forall|q: int| 0 <= q < panes@.len() implies #[trigger] panes@[q].id < self.next_pane_id by {
                let q0 = if q < p { q } else { q + 1 };
                assert(panes@[q] == old(self)@.panes[q0]);
            }
            lemma_tabs_wf_remove(old(self)@.panes, self.next_tab_id, p as int);
        }
        self.panes = panes;
        r
    }

    /// Puts a pane back at position `p`.
    fn put_pane(&mut self, p: usize, pane: PaneTabs)
        requires
            p <= old(self)@.panes.len(),
            pane.id < old(self)@.next_pane_id,
            forall|q: int| 0 <= q < old(self)@.panes.len() ==> #[trigger] old(self)@.panes[q].id != pane.id,
            tabs_wf(old(self)@.panes.insert(p as int, pane), old(self)@.next_tab_id),
        ensures
            final(self)@ == (AppView { panes: old(self)@.panes.insert(p as int, pane), ..old(self)@ }),
    {
        proof { use_type_invariant(&*self); }
        let mut panes: Vec<PaneTabs> = Vec::new();
        std::mem::swap(&mut panes, &mut self.panes);
        let ghost before = panes@;
        panes.insert(p, pane);
        proof {
            assert forall|a: int, b: int| 0 <= a < panes@.len() && 0 <= b < panes@.len() && a != b
                implies #[trigger] panes@[a].id != #[trigger] panes@[b].id by {
                if a != p && b != p {
                    let a0 = if a < p { a } else { a - 1 };
                    let b0 = if b < p { b } else { b - 1 };
                    assert(panes@[a] == before[a0]);
                    assert(panes@[b] == before[b0]);
                } else if a == p {
                    let b0 = if b < p { b } else { b - 1 };
                    assert(panes@[b] == before[b0]);
                } else {
                    let a0 = if a < p { a } else { a - 1 };
                    assert(panes@[a] == before[a0]);
                }
            }
            assert forall|q: int| 0 <= q < panes@.len() implies #[trigger] panes@[q].id < self.next_pane_id by {
                if q != p {
                    let q0 = if q < p { q } else { q - 1 };
                    assert(panes@[q] == before[q0]);
                }
            }
        }
        self.panes = panes;
    }

    /// Pane `p` of `o`, taken out of `self`, may be put back as `pane` when
    /// `pane`'s tab ids are distinct and were pane `p`'s.
    proof fn lemma_put_back(&self, o: AppView, p: int, pane: PaneTabs)
        requires
            tabs_wf(o.panes, o.next_tab_id),
            0 <= p < o.panes.len(),
            self@.panes == o.panes.remove(p),
            self@.next_tab_id == o.next_tab_id,
            distinct_tab_ids(pane.tabs@),
            forall|i: int| 0 <= i < pane.tabs@.len() ==> has_tab_id(o.panes[p].tabs@, #[trigger] pane.tabs@[i].id),
        ensures
            tabs_wf(self@.panes.insert(p, pane), self@.next_tab_id),
    {
        lemma_tabs_wf_sub(o.panes, o.next_tab_id, p, pane);
        assert(o.panes.remove(p).insert(p, pane) =~= o.panes.update(p, pane));
    }

    /// Focuses tab `tab` of pane `pane`, if there is such a pane.
    pub fn clicked_tab(&mut self, pane: u64, tab: u64)
        ensures
            match pane_pos(old(self)@.panes, pane) {
                Some(p) => final(self)@ == (AppView {
                    panes: old(self)@.panes.update(p, PaneTabs { focus: Some(tab), ..old(self)@.panes[p] }),
                    ..old(self)@
                }),
                None => final(self)@ == old(self)@,
            },
    {
        proof { use_type_invariant(&*self); }
        if let Some(p) = find_pane(&self.panes, pane) {
            let pt = self.take_pane(p);
            let pt2 = PaneTabs { focus: Some(tab), ..pt };
            self.put_pane(p, pt2);
            proof {
                assert(self@.panes =~= old(self)@.panes.update(p as int, pt2));
            }
        }
    }

    /// The mouse entered tab `id` of pane `pane`.
    pub fn entered_tab_region(&mut self, pane: u64, id: u64)
        ensures
            match pane_pos(old(self)@.panes, pane) {
                Some(p) => final(self)@ == (AppView {
                    panes: old(self)@.panes.update(p, PaneTabs { hover: Some(id), ..old(self)@.panes[p] }),
                    ..old(self)@
                }),
                None => final(self)@ == old(self)@,
            },
    {
        proof { use_type_invariant(&*self); }
        if let Some(p) = find_pane(&self.panes, pane) {
            let pt = self.take_pane(p);
            let pt2 = PaneTabs { hover: Some(id), ..pt };
            self.put_pane(p, pt2);
            proof {
                assert(self@.panes =~= old(self)@.panes.update(p as int, pt2));
            }
        }
    }

    /// The mouse left tab `id` of pane `pane`: it is no longer hovered, if it
    /// was the hovered tab.
    pub fn exited_tab_region(&mut self, pane: u64, id: u64)
        ensures
            match pane_pos(old(self)@.panes, pane) {
                Some(p) => if old(self)@.panes[p].hover == Some(id) {
                    final(self)@ == (AppView {
                        panes: old(self)@.panes.update(p, PaneTabs { hover: None, ..old(self)@.panes[p] }),
                        ..old(self)@
                    })
                } else {
                    final(self)@ == old(self)@
                },
                None => final(self)@ == old(self)@,
            },
    {
        proof { use_type_invariant(&*self); }
        if let Some(p) = find_pane(&self.panes, pane) {
            if self.panes[p].hover == Some(id) {
                let pt = self.take_pane(p);
                let pt2 = PaneTabs { hover: None, ..pt };
                self.put_pane(p, pt2);
                proof {
                    assert(self@.panes =~= old(self)@.panes.update(p as int, pt2));
                }
            }
        }
    }

    /// Dragging a tab was canceled: no tab is marked as dragged over.
    pub fn dragged_tab_canceled(&mut self)
        ensures
            final(self)@.panes.len() == old(self)@.panes.len(),
            forall|q: int| 0 <= q < old(self)@.panes.len() ==> #[trigger] final(self)@.panes[q] == (PaneTabs { over: None, ..old(self)@.panes[q] }),
            final(self)@ == (AppView { panes: final(self)@.panes, ..old(self)@ }),
    {
        proof { use_type_invariant(&*self); }
        let mut i: usize = 0;
        while i < self.panes.len()
            invariant
                i <= self@.panes.len(),
                self@.panes.len() == old(self)@.panes.len(),
                self@ == (AppView { panes: self@.panes, ..old(self)@ }),
                forall|q: int| 0 <= q < i ==> #[trigger] self@.panes[q] == (PaneTabs { over: None, ..old(self)@.panes[q] }),
                forall|q: int| i <= q < self@.panes.len() ==> #[trigger] self@.panes[q] == old(self)@.panes[q],
            decreases self@.panes.len() - i,
        {
            let pt = self.take_pane(i);
            self.put_pane(i, PaneTabs { over: None, ..pt });
            i = i + 1;
        }
    }

    /// A dragged tab is over the tabs `zones`, nearest first: in every pane the
    /// nearest of them is marked, or no tab when the pane does not hold it.
    pub fn over_tab(&mut self, zones: Vec<u64>)
        ensures
            zones@.len() == 0 ==> final(self)@ == old(self)@,
            zones@.len() > 0 ==> {
                &&& final(self)@.panes.len() == old(self)@.panes.len()
                &&& final(self)@ == (AppView { panes: final(self)@.panes, ..old(self)@ })
                &&& forall|q: int| 0 <= q < old(self)@.panes.len() ==> #[trigger] final(self)@.panes[q] == (PaneTabs {
                    over: if tab_pos(old(self)@.panes[q].tabs@, zones@[0]) is Some { Some(zones@[0]) } else { None },
                    ..old(self)@.panes[q]
                })
            },
    {
        proof { use_type_invariant(&*self); }
        if zones.len() == 0 {
            return;
        }
        let w = zones[0];
        let mut i: usize = 0;
        while i < self.panes.len()
            invariant
                i <= self@.panes.len(),
                w == zones@[0],
                self@.panes.len() == old(self)@.panes.len(),
                self@ == (AppView { panes: self@.panes, ..old(self)@ }),
                forall|q: int| 0 <= q < i ==> #[trigger] self@.panes[q] == (PaneTabs {
                    over: if tab_pos(old(self)@.panes[q].tabs@, w) is Some { Some(w) } else { None },
                    ..old(self)@.panes[q]
                }),
                forall|q: int| i <= q < self@.panes.len() ==> #[trigger] self@.panes[q] == old(self)@.panes[q],
            decreases self@.panes.len() - i,
        {
            let pt = self.take_pane(i);
            let over = match find_tab(&pt.tabs, w) {
                Some(_) => Some(w),
                None => None,
            };
            self.put_pane(i, PaneTabs { over, ..pt });
            i = i + 1;
        }
    }

    /// Opens a tab that lists the recent instances in the focused pane and
    /// focuses it; returns its id, or `None` when no pane is focused or tab
    /// ids are used up.
    pub fn new_tab(&mut self) -> (r: Option<u64>)
        ensures
            match pane_pos(old(self)@.panes, old(self)@.focus) {
                Some(p) => if old(self)@.next_tab_id < u64::MAX {
                    &&& r == Some(old(self)@.next_tab_id)
                    &&& only_pane_changed(old(self)@, AppView { next_tab_id: old(self)@.next_tab_id, ..final(self)@ }, p)
                    &&& final(self)@.next_tab_id == old(self)@.next_tab_id + 1
                    &&& final(self)@.panes[p].id == old(self)@.panes[p].id
                    &&& final(self)@.panes[p].tabs@ == old(self)@.panes[p].tabs@.push(
                        Tab { id: old(self)@.next_tab_id, buffer: final(self)@.panes[p].tabs@.last().buffer, loading: false })
                    &&& final(self)@.panes[p].tabs@.last().buffer is InstanceHistory
                    &&& final(self)@.panes[p].focus == Some(old(self)@.next_tab_id)
                    &&& final(self)@.panes[p].hover == old(self)@.panes[p].hover
                    &&& final(self)@.panes[p].over == old(self)@.panes[p].over
                } else {
                    r is None && final(self)@ == old(self)@
                },
                None => r is None && final(self)@ == old(self)@,
            },
    {
        proof { use_type_invariant(&*self); }
        match find_pane(&self.panes, self.focus) {
            Some(p) => {
                if self.next_tab_id == u64::MAX {
                    return None;
                }
                let ghost o = self@;
                let id = self.next_tab_id;
                proof { lemma_tabs_wf_raise(o.panes, id, (id + 1) as u64); }
                self.next_tab_id = id + 1;
                let mut pt = self.take_pane(p);
                let tab = Tab { id, buffer: BufferKind::InstanceHistory, loading: false };
                proof {
                    let old_tabs = o.panes[p as int].tabs@;
                    lemma_tabs_wf_distinct(o.panes, id, p as int);
                    assert forall|k: int| 0 <= k < old_tabs.len() implies #[trigger] old_tabs[k].id != id by {
                        assert(o.panes[p as int].tabs@[k].id < id);
                    }
                    lemma_tabs_insert(old_tabs, old_tabs.len() as int, tab);
                    assert(old_tabs.insert(old_tabs.len() as int, tab) =~= old_tabs.push(tab));
                }
                pt.tabs.push(tab);
                pt.focus = Some(id);
                proof {
                    let nt = pt.tabs@;
                    assert forall|i: int| 0 <= i < nt.len() implies #[trigger] nt[i].id < id + 1 by {
                        if i < nt.len() - 1 { assert(o.panes[p as int].tabs@[i].id < id); }
                    }
                    assert forall|q: int, j: int, i: int| 0 <= q < o.panes.len() && q != p && 0 <= j < o.panes[q].tabs@.len()
                        && 0 <= i < nt.len() implies #[trigger] o.panes[q].tabs@[j].id != #[trigger] nt[i].id by {
                        if i < nt.len() - 1 {
                            assert(o.panes[q].tabs@[j].id != o.panes[p as int].tabs@[i].id);
                        } else {
                            assert(o.panes[q].tabs@[j].id < id);
                        }
                    }
                    lemma_tabs_wf_update(o.panes, id, (id + 1) as u64, p as int, pt);
                    assert(o.panes.remove(p as int).insert(p as int, pt) =~= o.panes.update(p as int, pt));
                }
                self.put_pane(p, pt);
                Some(id)
            },
            None => None,
        }
    }

    /// Closes pane `pane`, unless it is the only one; returns whether it was
    /// closed.
    pub fn closed_pane(&mut self, pane: u64) -> (closed: bool)
        ensures
            match pane_pos(old(self)@.panes, pane) {
                Some(p) => if old(self)@.panes.len() > 1 {
                    closed && final(self)@ == (AppView { panes: old(self)@.panes.remove(p), ..old(self)@ })
                } else {
                    !closed && final(self)@ == old(self)@
                },
                None => !closed && final(self)@ == old(self)@,
            },
    {
        proof { use_type_invariant(&*self); }
        if self.panes.len() > 1 {
            if let Some(p) = find_pane(&self.panes, pane) {
                let _ = self.take_pane(p);
                return true;
            }
        }
        false
    }

    /// Closes tab `tab` of pane `pane`. When the pane is left without tabs it
    /// is to be closed, or, when it is the only pane, a new tab is to be
    /// opened; otherwise the tab after the closed one (or the one before it,
    /// when it was the last) takes the focus. Also returns the game directory
    /// of the closed tab when it showed an instance, whose lock file is then
    /// to be removed.
    pub fn closed_tab(&mut self, pane: u64, tab: u64) -> (r: (Followup, Option<String>))
        ensures
            match pane_pos(old(self)@.panes, pane) {
                None => final(self)@ == old(self)@ && r.0 == Followup::Nothing && r.1 is None,
                Some(p) => match tab_pos(old(self)@.panes[p].tabs@, tab) {
                    None => final(self)@ == old(self)@ && r.0 == Followup::Nothing && r.1 is None,
                    Some(i) => {
                        let o = old(self)@;
                        let rest = o.panes[p].tabs@.remove(i);
                        &&& only_pane_changed(o, final(self)@, p)
                        &&& final(self)@.panes[p].id == o.panes[p].id
                        &&& final(self)@.panes[p].tabs@ == rest
                        &&& final(self)@.panes[p].hover == o.panes[p].hover
                        &&& final(self)@.panes[p].over == o.panes[p].over
                        &&& (match o.panes[p].tabs@[i].buffer {
                            BufferKind::Instance(inst) => r.1 matches Some(path) && path@ == inst@.path,
                            _ => r.1 is None,
                        })
                        &&& if o.panes.len() > 1 && rest.len() == 0 {
                            r.0 == Followup::ClosePane(pane) && final(self)@.panes[p].focus == o.panes[p].focus
                        } else if rest.len() == 0 {
                            r.0 == Followup::NewTab && final(self)@.panes[p].focus == o.panes[p].focus
                        } else {
                            &&& r.0 == Followup::Nothing
                            &&& final(self)@.panes[p].focus == focus_after_removal(rest, i)
                            &&& final(self)@.panes[p].focus == Some(
                                if i + 1 < o.panes[p].tabs@.len() { o.panes[p].tabs@[i + 1].id } else { o.panes[p].tabs@[i - 1].id })
                        }
                    },
                },
            },
    {
        proof { use_type_invariant(&*self); }
        let pane_count = self.panes.len();
        let p = match find_pane(&self.panes, pane) {
            Some(p) => p,
            None => { return (Followup::Nothing, None); },
        };
        let i = match find_tab(&self.panes[p].tabs, tab) {
            Some(i) => i,
            None => { return (Followup::Nothing, None); },
        };
        let ghost o = self@;
        let mut pt = self.take_pane(p);
        let removed = pt.tabs.remove(i);
        proof {
            lemma_tabs_wf_distinct(o.panes, o.next_tab_id, p as int);
            lemma_tabs_remove(o.panes[p as int].tabs@, i as int);
        }
        let lock = match &removed.buffer {
            BufferKind::Instance(inst) => Some(inst.inner().path.clone()),
            _ => None,
        };
        if pane_count > 1 && pt.tabs.len() == 0 {
            proof { self.lemma_put_back(o, p as int, pt); }
            self.put_pane(p, pt);
            proof { assert(self@.panes =~= o.panes.update(p as int, self@.panes[p as int])); }
            return (Followup::ClosePane(pane), lock);
        } else if pt.tabs.len() == 0 {
            proof { self.lemma_put_back(o, p as int, pt); }
            self.put_pane(p, pt);
            proof { assert(self@.panes =~= o.panes.update(p as int, self@.panes[p as int])); }
            return (Followup::NewTab, lock);
        }
        let offset: usize = if pt.tabs.len() > 0 && i > 0 && i == pt.tabs.len() { i - 1 } else { i };
        pt.focus = if offset < pt.tabs.len() { Some(pt.tabs[offset].id) } else { None };
        proof { self.lemma_put_back(o, p as int, pt); }
        self.put_pane(p, pt);
        proof { assert(self@.panes =~= o.panes.update(p as int, self@.panes[p as int])); }
        (Followup::Nothing, lock)
    }
    /// Where the first tab with id `id` is: its pane's position and its own.
    fn locate_tab(&self, id: u64) -> (r: Option<(usize, usize)>)
        ensures
            match r {
                Some((p, i)) => tab_location(self@.panes, id) == Some((p as int, i as int))
                    && p < self@.panes.len() && i < self@.panes[p as int].tabs@.len(),
                None => tab_location(self@.panes, id) is None,
            },
    {
        let mut p: usize = 0;
        while p < self.panes.len()
            invariant
                p <= self@.panes.len(),
                forall|j: int| 0 <= j < p ==> (#[trigger] tab_pos(self@.panes[j].tabs@, id)) is None,
            decreases self@.panes.len() - p,
        {
            if let Some(i) = find_tab(&self.panes[p].tabs, id) {
                proof {
                    reveal(tab_location);
                    let k = choose|k: int| 0 <= k < self@.panes.len() && (#[trigger] tab_pos(self@.panes[k].tabs@, id)) is Some
                        && forall|j: int| 0 <= j < k ==> (#[trigger] tab_pos(self@.panes[j].tabs@, id)) is None;
                    if k < p { assert(tab_pos(self@.panes[k].tabs@, id) is None); }
                    if k > p { assert(tab_pos(self@.panes[p as int].tabs@, id) is None); }
                }
                return Some((p, i));
            }
            p = p + 1;
        }
        proof { reveal(tab_location); }
        None
    }

    /// The focused tab of the focused pane, with the pane's position and the
    /// tab's.
    pub fn focused_tab(&self) -> (r: Option<(usize, usize)>)
        ensures
            r matches Some((p, i)) ==> p < self@.panes.len() && i < self@.panes[p as int].tabs@.len()
                && pane_pos(self@.panes, self@.focus) == Some(p as int)
                && self@.panes[p as int].focus is Some
                && tab_pos(self@.panes[p as int].tabs@, self@.panes[p as int].focus->0) == Some(i as int),
            match pane_pos(self@.panes, self@.focus) {
                Some(p) => match self@.panes[p].focus {
                    Some(t) => match tab_pos(self@.panes[p].tabs@, t) {
                        Some(i) => r == Some((p as usize, i as usize)) && 0 <= p < self@.panes.len()
                            && 0 <= i < self@.panes[p].tabs@.len(),
                        None => r is None,
                    },
                    None => r is None,
                },
                None => r is None,
            },
    {
        let p = match find_pane(&self.panes, self.focus) {
            Some(p) => p,
            None => { return None; },
        };
        let t = match self.panes[p].focus {
            Some(t) => t,
            None => { return None; },
        };
        match find_tab(&self.panes[p].tabs, t) {
            Some(i) => Some((p, i)),
            None => None,
        }
    }

    /// Hands `message` to the instance shown in the focused tab of pane
    /// `pane`, and acts on its answer: an instance that could not be opened
    /// gives way to the list of recent instances, and loading marks the tab.
    pub fn update_instance(&mut self, pane: u64, message: Message) -> (r: TabOutcome)
        ensures
            ({
                let o = old(self)@;
                let n = final(self)@;
                match pane_pos(o.panes, pane) {
                    None => n == o && r is NoInstance,
                    Some(p) => match o.panes[p].focus {
                        None => n == o && r is NoInstance,
                        Some(t) => match tab_pos(o.panes[p].tabs@, t) {
                            None => n == o && r is NoInstance,
                            Some(i) => match o.panes[p].tabs@[i].buffer {
                                BufferKind::Instance(oi) => r matches TabOutcome::Answered(a) && {
                                    let ot = o.panes[p].tabs@[i];
                                    let nt = n.panes[p].tabs@[i];
                                    &&& only_pane_changed(o, n, p)
                                    &&& n.panes[p] == (PaneTabs { tabs: n.panes[p].tabs, ..o.panes[p] })
                                    &&& n.panes[p].tabs@.len() == o.panes[p].tabs@.len()
                                    &&& forall|k: int| 0 <= k < o.panes[p].tabs@.len() && k != i ==> #[trigger] n.panes[p].tabs@[k] == o.panes[p].tabs@[k]
                                    &&& nt.id == ot.id
                                    &&& if a is InitFailed {
                                        nt.buffer is InstanceHistory && nt.loading == ot.loading
                                    } else {
                                        &&& nt.buffer matches BufferKind::Instance(ni) && answers(oi@, message, ni@, a)
                                        &&& nt.loading == (if a is Loaded { false } else if a is Loading { true } else { ot.loading })
                                    }
                                },
                                _ => n == o && r is NoInstance,
                            },
                        },
                    },
                }
            }),
    {
        proof { use_type_invariant(&*self); }
        let p = match find_pane(&self.panes, pane) {
            Some(p) => p,
            None => { return TabOutcome::NoInstance; },
        };
        let t = match self.panes[p].focus {
            Some(t) => t,
            None => { return TabOutcome::NoInstance; },
        };
        let i = match find_tab(&self.panes[p].tabs, t) {
            Some(i) => i,
            None => { return TabOutcome::NoInstance; },
        };
        let is_instance = match &self.panes[p].tabs[i].buffer {
            BufferKind::Instance(_) => true,
            _ => false,
        };
        if !is_instance {
            return TabOutcome::NoInstance;
        }
        let ghost o = self@;
        let mut pt = self.take_pane(p);
        let tab = pt.tabs.remove(i);
        let Tab { id, buffer, loading } = tab;
        let (new_tab, action) = match buffer {
            BufferKind::Instance(mut inst) => {
                let a = inst.update(message);
                match a {
                    Action::InitFailed => (Tab { id, buffer: BufferKind::InstanceHistory, loading }, a),
                    Action::Loaded => (Tab { id, buffer: BufferKind::Instance(inst), loading: false }, a),
                    Action::Loading => (Tab { id, buffer: BufferKind::Instance(inst), loading: true }, a),
                    _ => (Tab { id, buffer: BufferKind::Instance(inst), loading }, a),
                }
            },
            other => (Tab { id, buffer: other, loading }, Action::Nothing),
        };
        pt.tabs.insert(i, new_tab);
        self.put_pane(p, pt);
        proof {
            assert(self@.panes =~= o.panes.update(p as int, self@.panes[p as int]));
        }
        TabOutcome::Answered(action)
    }

    /// Shows `what` in the focused tab of the pane at position `p`: returns
    /// the work that loads it.
    fn show_in_tab(&mut self, p: usize, i: usize, what: Open) -> (r: OpenOutcome)
        requires
            p < old(self)@.panes.len(),
            i < old(self)@.panes[p as int].tabs@.len(),
        ensures
            only_pane_changed(old(self)@, final(self)@, p as int),
            final(self)@.panes[p as int] == (PaneTabs { tabs: final(self)@.panes[p as int].tabs, ..old(self)@.panes[p as int] }),
            final(self)@.panes[p as int].tabs@.len() == old(self)@.panes[p as int].tabs@.len(),
            forall|k: int| 0 <= k < old(self)@.panes[p as int].tabs@.len() && k != i ==>
                #[trigger] final(self)@.panes[p as int].tabs@[k] == old(self)@.panes[p as int].tabs@[k],
            final(self)@.panes[p as int].tabs@[i as int].id == old(self)@.panes[p as int].tabs@[i as int].id,
            final(self)@.panes[p as int].tabs@[i as int].loading == old(self)@.panes[p as int].tabs@[i as int].loading,
            opens(what, final(self)@.panes[p as int].tabs@[i as int].buffer),
            match what {
                Open::RecentInstance => r matches OpenOutcome::Instance(t) && t is InitFromHistory,
                Open::InstanceAt(path) => r matches OpenOutcome::Instance(t) && t matches Task::InitFromPath(q) && q@ == path@,
                Open::InstanceHistory => r is InstanceHistory,
                _ => r is Shown,
            },
    {
        let ghost o = self@;
        let (buffer, outcome) = match what {
            Open::RecentInstance => {
                let (inst, task) = Instance::new();
                (BufferKind::Instance(inst), OpenOutcome::Instance(task))
            },
            Open::InstanceAt(path) => {
                let (inst, task) = Instance::with_path(path.as_str());
                (BufferKind::Instance(inst), OpenOutcome::Instance(task))
            },
            Open::InstanceHistory => (BufferKind::InstanceHistory, OpenOutcome::InstanceHistory),
            Open::Logs => (BufferKind::Logs, OpenOutcome::Shown),
            Open::Settings => (BufferKind::Settings, OpenOutcome::Shown),
        };
        let mut pt = self.take_pane(p);
        let old_tab = pt.tabs.remove(i);
        pt.tabs.insert(i, Tab { id: old_tab.id, buffer, loading: old_tab.loading });
        self.put_pane(p, pt);
        proof {
            assert(self@.panes =~= o.panes.update(p as int, self@.panes[p as int]));
        }
        outcome
    }

    /// Shows `what` in the focused tab of pane `pane`. Asked to show the
    /// instance in a directory that the tab already shows, the tab is to be
    /// refreshed instead.
    pub fn open_in_tab(&mut self, pane: u64, what: Open) -> (r: OpenOutcome)
        ensures
            ({
                let o = old(self)@;
                let n = final(self)@;
                match pane_pos(o.panes, pane) {
                    None => n == o && r is NoTab,
                    Some(p) => match o.panes[p].focus {
                        None => n == o && r is NoTab,
                        Some(t) => match tab_pos(o.panes[p].tabs@, t) {
                            None => n == o && r is NoTab,
                            Some(i) => {
                                let same = what matches Open::InstanceAt(path)
                                    && o.panes[p].tabs@[i].buffer matches BufferKind::Instance(inst)
                                    && inst@.path == path@;
                                if same {
                                    n == o && r is Refresh
                                } else {
                                    &&& only_pane_changed(o, n, p)
                                    &&& n.panes[p] == (PaneTabs { tabs: n.panes[p].tabs, ..o.panes[p] })
                                    &&& n.panes[p].tabs@.len() == o.panes[p].tabs@.len()
                                    &&& forall|k: int| 0 <= k < o.panes[p].tabs@.len() && k != i ==> #[trigger] n.panes[p].tabs@[k] == o.panes[p].tabs@[k]
                                    &&& n.panes[p].tabs@[i].id == o.panes[p].tabs@[i].id
                                    &&& n.panes[p].tabs@[i].loading == o.panes[p].tabs@[i].loading
                                    &&& opens(what, n.panes[p].tabs@[i].buffer)
                                    &&& match what {
                                        Open::RecentInstance => r matches OpenOutcome::Instance(t) && t is InitFromHistory,
                                        Open::InstanceAt(path) => r matches OpenOutcome::Instance(t) && t matches Task::InitFromPath(q) && q@ == path@,
                                        Open::InstanceHistory => r is InstanceHistory,
                                        _ => r is Shown,
                                    }
                                }
                            },
                        },
                    },
                }
            }),
    {
        proof { use_type_invariant(&*self); }
        let p = match find_pane(&self.panes, pane) {
            Some(p) => p,
            None => { return OpenOutcome::NoTab; },
        };
        let t = match self.panes[p].focus {
            Some(t) => t,
            None => { return OpenOutcome::NoTab; },
        };
        let i = match find_tab(&self.panes[p].tabs, t) {
            Some(i) => i,
            None => { return OpenOutcome::NoTab; },
        };
        if let Open::InstanceAt(path) = &what {
            if let BufferKind::Instance(inst) = &self.panes[p].tabs[i].buffer {
                if crate::text::text_is(inst.inner().path.as_str(), path.as_str()) {
                    return OpenOutcome::Refresh;
                }
            }
        }
        self.show_in_tab(p, i, what)
    }

    /// Refreshes the focused tab of the focused pane: an instance is opened
    /// again from its directory, the other tabs are shown afresh.
    pub fn refresh_tab(&mut self) -> (r: OpenOutcome)
        ensures
            ({
                let o = old(self)@;
                let n = final(self)@;
                match pane_pos(o.panes, o.focus) {
                    None => n == o && r is NoTab,
                    Some(p) => match o.panes[p].focus {
                        None => n == o && r is NoTab,
                        Some(t) => match tab_pos(o.panes[p].tabs@, t) {
                            None => n == o && r is NoTab,
                            Some(i) => {
                                &&& only_pane_changed(o, n, p)
                                &&& n.panes[p] == (PaneTabs { tabs: n.panes[p].tabs, ..o.panes[p] })
                                &&& n.panes[p].tabs@.len() == o.panes[p].tabs@.len()
                                &&& forall|k: int| 0 <= k < o.panes[p].tabs@.len() && k != i ==> #[trigger] n.panes[p].tabs@[k] == o.panes[p].tabs@[k]
                                &&& n.panes[p].tabs@[i].id == o.panes[p].tabs@[i].id
                                &&& n.panes[p].tabs@[i].loading == o.panes[p].tabs@[i].loading
                                &&& match o.panes[p].tabs@[i].buffer {
                                    BufferKind::Instance(inst) => (n.panes[p].tabs@[i].buffer matches BufferKind::Instance(ni) && empty_view(ni@))
                                        && (r matches OpenOutcome::Instance(t) && t matches Task::InitFromPath(q) && q@ == inst@.path),
                                    BufferKind::InstanceHistory => n.panes[p].tabs@[i].buffer is InstanceHistory && r is InstanceHistory,
                                    BufferKind::Logs => n.panes[p].tabs@[i].buffer is Logs && r is Shown,
                                    BufferKind::Settings => n.panes[p].tabs@[i].buffer is Settings && r is Shown,
                                }
                            },
                        },
                    },
                }
            }),
    {
        proof { use_type_invariant(&*self); }
        let p = match find_pane(&self.panes, self.focus) {
            Some(p) => p,
            None => { return OpenOutcome::NoTab; },
        };
        let t = match self.panes[p].focus {
            Some(t) => t,
            None => { return OpenOutcome::NoTab; },
        };
        let i = match find_tab(&self.panes[p].tabs, t) {
            Some(i) => i,
            None => { return OpenOutcome::NoTab; },
        };
        let what = match &self.panes[p].tabs[i].buffer {
            BufferKind::Instance(inst) => Open::InstanceAt(inst.inner().path.clone()),
            BufferKind::InstanceHistory => Open::InstanceHistory,
            BufferKind::Logs => Open::Logs,
            BufferKind::Settings => Open::Settings,
        };
        self.show_in_tab(p, i, what)
    }

    /// While the focused tab is dragged: the ids of all other tabs, pane after
    /// pane, where it may be dropped. `None` when no tab is focused.
    pub fn drag_targets(&self) -> (r: Option<Vec<u64>>)
        ensures
            match pane_pos(self@.panes, self@.focus) {
                Some(p) => match self@.panes[p].focus {
                    Some(t) => if tab_pos(self@.panes[p].tabs@, t) is Some {
                        r matches Some(v) && v@ == all_tab_ids_except(self@.panes, t)
                    } else {
                        r is None
                    },
                    None => r is None,
                },
                None => r is None,
            },
    {
        let ft = self.focused_tab();
        if ft.is_none() {
            return None;
        }
        let (p, i) = ft.unwrap();
        let t = self.panes[p].tabs[i].id;
        proof {
            lemma_pane_pos(self@.panes, self@.focus);
            let pp = pane_pos(self@.panes, self@.focus)->0;
            assert(ft == Some((p, i)));
            assert(pp == p as int);
            let tf = self@.panes[pp].focus->0;
            lemma_tab_pos(self@.panes[pp].tabs@, tf);
            assert(tab_pos(self@.panes[pp].tabs@, tf) == Some(i as int));
            assert(self@.panes[pp].tabs@[i as int].id == tf);
        }
        let mut out: Vec<u64> = Vec::new();
        let mut q: usize = 0;
        while q < self.panes.len()
            invariant
                q <= self@.panes.len(),
                out@ == all_tab_ids_except(self@.panes.take(q as int), t),
            decreases self@.panes.len() - q,
        {
            let tabs = &self.panes[q].tabs;
            let ghost before = out@;
            let mut j: usize = 0;
            while j < tabs.len()
                invariant
                    j <= tabs@.len(),
                    out@ == before + tab_ids_except(tabs@.take(j as int), t),
                decreases tabs@.len() - j,
            {
                proof {
                    assert(tabs@.take(j + 1).drop_last() =~= tabs@.take(j as int));
                }
                if tabs[j].id != t {
                    out.push(tabs[j].id);
                }
                proof {
                    assert(out@ =~= before + tab_ids_except(tabs@.take(j + 1), t));
                }
                j = j + 1;
            }
            proof {
                assert(tabs@.take(tabs@.len() as int) =~= tabs@);
                assert(self@.panes.take(q + 1).drop_last() =~= self@.panes.take(q as int));
                assert(self@.panes.take(q + 1).last() == self@.panes[q as int]);
                assert(out@ == all_tab_ids_except(self@.panes.take(q + 1), t));
            }
            q = q + 1;
        }
        proof {
            assert(self@.panes.take(self@.panes.len() as int) =~= self@.panes);
            assert(out@ == all_tab_ids_except(self@.panes, t));
            assert(t == self@.panes[p as int].focus->0);
        }
        Some(out)
    }

    /// Splits the focused pane: a new pane with one tab listing the recent
    /// instances, focused. Returns the new pane's id; `None` when no pane is
    /// focused or pane or tab ids are used up.
    pub fn new_pane(&mut self) -> (r: Option<u64>)
        ensures
            match r {
                Some(id) => {
                    &&& pane_pos(old(self)@.panes, old(self)@.focus) is Some
                    &&& id == old(self)@.next_pane_id
                    &&& final(self)@.panes.len() == old(self)@.panes.len() + 1
                    &&& final(self)@.panes.drop_last() == old(self)@.panes
                    &&& final(self)@.panes.last().id == id
                    &&& final(self)@.panes.last().tabs@.len() == 1
                    &&& final(self)@.panes.last().tabs@[0].id == old(self)@.next_tab_id
                    &&& final(self)@.panes.last().tabs@[0].buffer is InstanceHistory
                    &&& !final(self)@.panes.last().tabs@[0].loading
                    &&& final(self)@.panes.last().focus == Some(old(self)@.next_tab_id)
                    &&& final(self)@.panes.last().hover is None
                    &&& final(self)@.panes.last().over is None
                    &&& final(self)@.next_tab_id == old(self)@.next_tab_id + 1
                    &&& final(self)@.next_pane_id == old(self)@.next_pane_id + 1
                    &&& final(self)@.focus == old(self)@.focus
                    &&& final(self)@.toasts == old(self)@.toasts
                    &&& final(self)@.root == old(self)@.root
                },
                None => final(self)@ == old(self)@
                    && (pane_pos(old(self)@.panes, old(self)@.focus) is None
                        || old(self)@.next_pane_id == u64::MAX || old(self)@.next_tab_id == u64::MAX),
            },
    {
        proof { use_type_invariant(&*self); }
        if find_pane(&self.panes, self.focus).is_none() || self.next_pane_id == u64::MAX
            || self.next_tab_id == u64::MAX {
            return None;
        }
        let id = self.next_pane_id;
        let tab_id = self.next_tab_id;
        let tab = Tab { id: tab_id, buffer: BufferKind::InstanceHistory, loading: false };
        let pane = PaneTabs { id, tabs: vec![tab], focus: Some(tab_id), hover: None, over: None };
        let mut panes: Vec<PaneTabs> = Vec::new();
        std::mem::swap(&mut panes, &mut self.panes);
        let ghost before = panes@;
        proof { lemma_tabs_wf_push_pane(before, tab_id, pane); }
        panes.push(pane);
        proof {
            assert(panes@.drop_last() =~= before);
        }
        self.next_tab_id = tab_id + 1;
        self.next_pane_id = id + 1;
        self.panes = panes;
        Some(id)
    }

    /// A dragged tab was dropped on the tabs `zones`, nearest first: the
    /// focused tab moves to the place of the nearest of them, which is marked
    /// as hovered in its pane. When the tab leaves its pane, the tab after it
    /// (or before it) takes that pane's focus, and when the pane is left
    /// without tabs and is not the only pane, its id is returned: the pane is
    /// to be closed.
    pub fn reorder_tabs(&mut self, zones: Vec<u64>) -> (r: Option<u64>)
        ensures
            reorders(old(self)@, zones@, final(self)@, r),
    {
        proof { use_type_invariant(&*self); }
        if zones.len() == 0 {
            return None;
        }
        let (tp, ti) = match self.locate_tab(zones[0]) {
            Some(x) => x,
            None => { return None; },
        };
        let fp = match find_pane(&self.panes, self.focus) {
            Some(p) => p,
            None => { return None; },
        };
        let tf = match self.panes[fp].focus {
            Some(t) => t,
            None => { return None; },
        };
        let fi = match find_tab(&self.panes[fp].tabs, tf) {
            Some(i) => i,
            None => { return None; },
        };
        let ghost o = self@;
        let count = self.panes.len();
        if fp == tp {
            let mut pt = self.take_pane(fp);
            let tab = pt.tabs.remove(fi);
            proof {
                lemma_tabs_wf_distinct(o.panes, o.next_tab_id, fp as int);
                lemma_tabs_remove(o.panes[fp as int].tabs@, fi as int);
                lemma_tabs_insert(pt.tabs@, ti as int, tab);
            }
            let ghost rest = pt.tabs@;
            pt.hover = Some(tab.id);
            pt.tabs.insert(ti, tab);
            proof {
                let ot = o.panes[fp as int].tabs@;
                assert forall|i: int| 0 <= i < pt.tabs@.len() implies has_tab_id(ot, #[trigger] pt.tabs@[i].id) by {
                    if pt.tabs@[i].id == tab.id {
                        assert(ot[fi as int].id == tab.id);
                    } else {
                        assert(has_tab_id(rest, pt.tabs@[i].id));
                        let k = choose|k: int| 0 <= k < rest.len() && #[trigger] rest[k].id == pt.tabs@[i].id;
                        assert(has_tab_id(ot, rest[k].id));
                    }
                }
                self.lemma_put_back(o, fp as int, pt);
            }
            self.put_pane(fp, pt);
            proof { assert(self@.panes =~= o.panes.update(fp as int, self@.panes[fp as int])); }
            None
        } else {
            let mut pt = self.take_pane(fp);
            let tab = pt.tabs.remove(fi);
            proof {
                lemma_tabs_wf_distinct(o.panes, o.next_tab_id, fp as int);
                lemma_tabs_remove(o.panes[fp as int].tabs@, fi as int);
            }
            let offset: usize = if pt.tabs.len() > 0 && fi > 0 && fi == pt.tabs.len() { fi - 1 } else { fi };
            pt.focus = if offset < pt.tabs.len() { Some(pt.tabs[offset].id) } else { None };
            let closes = pt.tabs.len() == 0 && count > 1;
            proof { self.lemma_put_back(o, fp as int, pt); }
            self.put_pane(fp, pt);
            proof { assert(self@.panes =~= o.panes.update(fp as int, self@.panes[fp as int])); }
            let ghost mid = self@;
            proof {
                use_type_invariant(&*self);
                assert(o.panes[fp as int].tabs@[fi as int].id < o.next_tab_id);
                assert forall|q2: int, j: int| 0 <= q2 < mid.panes.len() && 0 <= j < mid.panes[q2].tabs@.len()
                    implies #[trigger] mid.panes[q2].tabs@[j].id != tab.id by {
                    if q2 != fp {
                        assert(o.panes[q2].tabs@[j].id != o.panes[fp as int].tabs@[fi as int].id);
                    }
                }
            }
            let mut tq = self.take_pane(tp);
            tq.hover = Some(tab.id);
            tq.tabs.insert(ti, tab);
            proof {
                lemma_tabs_wf_insert_tab(mid.panes, mid.next_tab_id, tp as int, ti as int, tab, tq);
                assert(mid.panes.remove(tp as int).insert(tp as int, tq) =~= mid.panes.update(tp as int, tq));
            }
            self.put_pane(tp, tq);
            proof { assert(self@.panes =~= mid.panes.update(tp as int, self@.panes[tp as int])); }
            if closes { Some(self.focus) } else { None }
        }
    }
}

/// The window title: the launcher's name and version, then the focused tab's
/// title when there is a focused tab.
pub fn window_title(version: &str, tab_title: Option<&str>) -> (r: String)
    ensures
        r@ == "EXAMINER v"@ + version@ + (match tab_title {
            Some(t) => " - "@ + t@,
            None => Seq::empty(),
        }),
{
    let mut title = "EXAMINER v".to_owned();
    title.append(version);
    if let Some(t) = tab_title {
        title.append(" - ");
        title.append(t);
    } else {
        proof { assert(title@ =~= title@ + Seq::<char>::empty()); }
    }
    title
}

/// Closing the tab at `i` of `tabs`, when others remain, hands the focus to
/// the tab that followed it, or to the one before it when it was the last.
pub proof fn lemma_focus_moves_to_next_tab(tabs: Seq<Tab>, i: int)
    requires
        tabs.len() >= 2,
        0 <= i < tabs.len(),
    ensures
        i + 1 < tabs.len() ==> focus_after_removal(tabs.remove(i), i) == Some(tabs[i + 1].id),
        i + 1 == tabs.len() ==> focus_after_removal(tabs.remove(i), i) == Some(tabs[i - 1].id),
{
    let rest = tabs.remove(i);
    if i + 1 < tabs.len() {
        assert(rest[i] == tabs[i + 1]);
    } else {
        assert(rest[i - 1] == tabs[i - 1]);
    }
}

/// After a tab is closed and tabs remain in its pane, one of them has the
/// focus.
pub proof fn lemma_focus_after_removal_exists(rest: Seq<Tab>, i: int)
    requires
        rest.len() > 0,
        0 <= i <= rest.len(),
    ensures
        focus_after_removal(rest, i) matches Some(id) && exists|k: int| 0 <= k < rest.len() && #[trigger] rest[k].id == id,
{
    let offset = if rest.len() > 0 && i > 0 && i == rest.len() { i - 1 } else { i };
    assert(rest[offset].id == focus_after_removal(rest, i)->0);
}

/// Picking a theme in the settings tab and taking the written settings back
/// makes that theme the one in use, and nothing but the settings and the
/// theme changes.
pub proof fn lemma_selected_theme_is_used(o: AppView, theme: ThemeName, written: Config, n: AppView)
    requires
        written.spec_theme() == spec_theme_label(theme),
        n == (AppView { root: n.root, ..o }),
        n.root.spec_config() == written,
        n.root.spec_loading() == o.root.spec_loading(),
        n.root.spec_logs() == o.root.spec_logs(),
        n.root.spec_theme() == (match spec_theme_from(written.spec_theme()) {
            Some(t) => t,
            None => o.root.spec_theme(),
        }),
    ensures
        n.root.spec_theme() == theme,
        n.root.spec_config().spec_theme() == spec_theme_label(theme),
{
    lemma_theme_label_round_trip(theme);
}

/// The ids of the tabs of `tabs`, in order.
pub open spec fn tab_ids(tabs: Seq<Tab>) -> Seq<u64> {
    tabs.map_values(|t: Tab| t.id)
}

/// The ids of all tabs of all panes, pane after pane.
pub open spec fn all_tab_ids(panes: Seq<PaneTabs>) -> Seq<u64>
    decreases panes.len(),
{
    if panes.len() == 0 {
        Seq::empty()
    } else {
        all_tab_ids(panes.drop_last()) + tab_ids(panes.last().tabs@)
    }
}

/// Replacing pane `q` trades its tab ids for those of the new pane.
proof fn lemma_all_tab_ids_update(panes: Seq<PaneTabs>, q: int, p: PaneTabs)
    requires
        0 <= q < panes.len(),
    ensures
        all_tab_ids(panes.update(q, p)).to_multiset().add(tab_ids(panes[q].tabs@).to_multiset())
            == all_tab_ids(panes).to_multiset().add(tab_ids(p.tabs@).to_multiset()),
    decreases panes.len(),
{
    broadcast use vstd::multiset::group_multiset_axioms;
    let u = panes.update(q, p);
    let dl = panes.drop_last();
    vstd::seq_lib::lemma_multiset_commutative(all_tab_ids(dl), tab_ids(panes.last().tabs@));
    if q == panes.len() - 1 {
        assert(u.drop_last() =~= dl);
        vstd::seq_lib::lemma_multiset_commutative(all_tab_ids(dl), tab_ids(p.tabs@));
        assert(all_tab_ids(u).to_multiset().add(tab_ids(panes[q].tabs@).to_multiset())
            =~= all_tab_ids(panes).to_multiset().add(tab_ids(p.tabs@).to_multiset()));
    } else {
        assert(u.drop_last() =~= dl.update(q, p));
        assert(u.last() == panes.last());
        assert(dl[q] == panes[q]);
        lemma_all_tab_ids_update(dl, q, p);
        vstd::seq_lib::lemma_multiset_commutative(all_tab_ids(dl.update(q, p)), tab_ids(panes.last().tabs@));
        assert(all_tab_ids(u) == all_tab_ids(dl.update(q, p)) + tab_ids(panes.last().tabs@));
        let a = all_tab_ids(dl.update(q, p)).to_multiset();
        let b = tab_ids(panes.last().tabs@).to_multiset();
        let c = tab_ids(panes[q].tabs@).to_multiset();
        let d = all_tab_ids(dl).to_multiset();
        let e = tab_ids(p.tabs@).to_multiset();
        assert forall|x: u64| #[trigger] all_tab_ids(u).to_multiset().add(c).count(x)
            == all_tab_ids(panes).to_multiset().add(e).count(x) by {
            assert(a.add(c).count(x) == d.add(e).count(x));
        }
        assert(all_tab_ids(u).to_multiset().add(c) =~= all_tab_ids(panes).to_multiset().add(e));
    }
}

/// Taking tab `i` out of `tabs` takes its id out of their ids.
proof fn lemma_tab_ids_remove(tabs: Seq<Tab>, i: int)
    requires
        0 <= i < tabs.len(),
    ensures
        tab_ids(tabs.remove(i)).to_multiset() == tab_ids(tabs).to_multiset().remove(tabs[i].id),
{
    assert(tab_ids(tabs.remove(i)) =~= tab_ids(tabs).remove(i));
    vstd::seq_lib::to_multiset_remove(tab_ids(tabs), i);
}

/// Putting tab `t` into `tabs` puts its id into their ids.
proof fn lemma_tab_ids_insert(tabs: Seq<Tab>, i: int, t: Tab)
    requires
        0 <= i <= tabs.len(),
    ensures
        tab_ids(tabs.insert(i, t)).to_multiset() == tab_ids(tabs).to_multiset().insert(t.id),
{
    assert(tab_ids(tabs.insert(i, t)) =~= tab_ids(tabs).insert(i, t.id));
    vstd::seq_lib::to_multiset_insert(tab_ids(tabs), i, t.id);
}

/// Dropping the focused tab on another tab moves it without losing or
/// doubling any tab: the ids of all tabs over all panes stay the same,
/// counted with their multiplicity.
pub proof fn lemma_reorder_keeps_tabs(o: AppView, zones: Seq<u64>, n: AppView, r: Option<u64>)
    requires
        reorders(o, zones, n, r),
    ensures
        all_tab_ids(n.panes).to_multiset() == all_tab_ids(o.panes).to_multiset(),
{
    broadcast use vstd::multiset::group_multiset_axioms;
    if zones.len() == 0 || tab_location(o.panes, zones[0]) is None || pane_pos(o.panes, o.focus) is None {
        return;
    }
    let (tp, ti) = tab_location(o.panes, zones[0])->0;
    let fp = pane_pos(o.panes, o.focus)->0;
    if o.panes[fp].focus is None || tab_pos(o.panes[fp].tabs@, o.panes[fp].focus->0) is None {
        return;
    }
    reveal(tab_location);
    lemma_pane_pos(o.panes, o.focus);
    lemma_tab_pos(o.panes[tp].tabs@, zones[0]);
    lemma_tab_pos(o.panes[fp].tabs@, o.panes[fp].focus->0);
    let fi = tab_pos(o.panes[fp].tabs@, o.panes[fp].focus->0)->0;
    let moved = o.panes[fp].tabs@[fi];
    let rest = o.panes[fp].tabs@.remove(fi);
    let of = tab_ids(o.panes[fp].tabs@).to_multiset();
    lemma_tab_ids_remove(o.panes[fp].tabs@, fi);
    assert(tab_ids(o.panes[fp].tabs@)[fi] == moved.id);
    vstd::seq_lib::to_multiset_contains(tab_ids(o.panes[fp].tabs@), moved.id);
    assert(of.count(moved.id) > 0);
    let mo = all_tab_ids(o.panes).to_multiset();
    let mn = all_tab_ids(n.panes).to_multiset();
    if fp == tp {
        assert(n.panes =~= o.panes.update(fp, n.panes[fp]));
        lemma_all_tab_ids_update(o.panes, fp, n.panes[fp]);
        lemma_tab_ids_insert(rest, ti, moved);
        assert forall|x: u64| #[trigger] mn.count(x) == mo.count(x) by {
            assert(mn.add(of).count(x) == mo.add(tab_ids(n.panes[fp].tabs@).to_multiset()).count(x));
        }
        assert(mn =~= mo);
    } else {
        let mid = o.panes.update(fp, n.panes[fp]);
        assert(n.panes =~= mid.update(tp, n.panes[tp]));
        lemma_all_tab_ids_update(o.panes, fp, n.panes[fp]);
        lemma_all_tab_ids_update(mid, tp, n.panes[tp]);
        assert(mid[tp] == o.panes[tp]);
        lemma_tab_ids_insert(o.panes[tp].tabs@, ti, moved);
        let mm = all_tab_ids(mid).to_multiset();
        let ot = tab_ids(o.panes[tp].tabs@).to_multiset();
        assert forall|x: u64| #[trigger] mn.count(x) == mo.count(x) by {
            assert(mm.add(of).count(x) == mo.add(tab_ids(rest).to_multiset()).count(x));
            assert(mn.add(ot).count(x) == mm.add(tab_ids(n.panes[tp].tabs@).to_multiset()).count(x));
        }
        assert(mn =~= mo);
    }
}

/// In a well-formed window a tab id names exactly one tab: the tab at `k` of
/// pane `q` is the one that closing, focusing or dropping on its id finds,
/// and no other pane holds that id.
pub proof fn lemma_tab_id_names_one_tab(panes: Seq<PaneTabs>, next_tab_id: u64, q: int, k: int)
    requires
        tabs_wf(panes, next_tab_id),
        0 <= q < panes.len(),
        0 <= k < panes[q].tabs@.len(),
    ensures
        tab_pos(panes[q].tabs@, panes[q].tabs@[k].id) == Some(k),
        forall|q2: int| 0 <= q2 < panes.len() && q2 != q ==> (#[trigger] tab_pos(panes[q2].tabs@, panes[q].tabs@[k].id)) is None,
        tab_location(panes, panes[q].tabs@[k].id) == Some((q, k)),
{
    let id = panes[q].tabs@[k].id;
    lemma_tabs_wf_distinct(panes, next_tab_id, q);
    lemma_tab_pos_of_distinct(panes[q].tabs@, k);
    assert forall|q2: int| 0 <= q2 < panes.len() && q2 != q implies (#[trigger] tab_pos(panes[q2].tabs@, id)) is None by {
        lemma_tab_pos(panes[q2].tabs@, id);
        if tab_pos(panes[q2].tabs@, id) is Some {
            let i = tab_pos(panes[q2].tabs@, id)->0;
            assert(panes[q2].tabs@[i].id != panes[q].tabs@[k].id);
        }
    }
    reveal(tab_location);
    assert(forall|j: int| 0 <= j < q ==> (#[trigger] tab_pos(panes[j].tabs@, id)) is None);
    let c = choose|c: int| 0 <= c < panes.len() && (#[trigger] tab_pos(panes[c].tabs@, id)) is Some
        && forall|j: int| 0 <= j < c ==> (#[trigger] tab_pos(panes[j].tabs@, id)) is None;
    if c != q {
        assert(tab_pos(panes[c].tabs@, id) is None);
    }
}

} // verus!
