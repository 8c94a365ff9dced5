//! A profile's load order: which plugins are installed, whether each is
//! enabled, and the priority that orders them.

use vstd::prelude::*;

use crate::text::text_is;

verus! {

broadcast use vstd::seq_lib::group_to_multiset_ensures;

/// What a profile records of one plugin.
#[derive(Debug)]
pub struct LoadOrderEntry {
    /// Whether the plugin is loaded with the game.
    pub enabled: bool,
    /// Position of the plugin in the load order; lower loads first.
    pub priority: u32,
    /// Name from the plugin's manifest, if it has a valid one.
    pub display_name: Option<String>,
    /// Version from the plugin's manifest, if it has a valid one.
    pub version: Option<String>,
}

/// A copy of an optional text.
pub fn clone_opt_string(s: &Option<String>) -> (r: Option<String>)
    ensures
        r == *s,
{
    match s {
        Some(t) => Some(t.clone()),
        None => None,
    }
}

impl Clone for LoadOrderEntry {
    fn clone(&self) -> (r: Self)
        ensures
            r == *self,
    {
        LoadOrderEntry {
            enabled: self.enabled,
            priority: self.priority,
            display_name: clone_opt_string(&self.display_name),
            version: clone_opt_string(&self.version),
        }
    }
}

/// A plugin id paired with its load order entry.
pub type LoadOrderItem = (String, LoadOrderEntry);

/// A copy of a plugin id with its entry.
pub fn clone_item(item: &LoadOrderItem) -> (r: LoadOrderItem)
    ensures
        r == *item,
{
    (item.0.clone(), item.1.clone())
}

/// The priorities of `s` never decrease from one item to the next.
pub open spec fn sorted_by_priority(s: Seq<LoadOrderItem>) -> bool {
    forall|i: int, j: int| 0 <= i <= j < s.len() ==> #[trigger] s[i].1.priority <= #[trigger] s[j].1.priority
}

/// No plugin id occurs twice in `s`.
pub open spec fn distinct_ids(s: Seq<LoadOrderItem>) -> bool {
    forall|i: int, j: int| 0 <= i < s.len() && 0 <= j < s.len() && i != j ==> #[trigger] s[i].0@ != #[trigger] s[j].0@
}

/// The priority a plugin gets when the plugin at position `from` of the load
/// order table is dragged to position `to`.
pub open spec fn moved_priority(p: u32, from: u32, to: u32) -> u32 {
    if p == from {
        to
    } else if from < to && p >= from && p <= to && p != 0 {
        (p - 1) as u32
    } else if from > to && p <= from && p >= to {
        (p + 1) as u32
    } else {
        p
    }
}

/// A profile's load order: each installed plugin's id with its entry, every
/// id at most once. The order of the items carries no meaning.
#[derive(Debug)]
pub struct LoadOrder {
    items: Vec<LoadOrderItem>,
}

impl View for LoadOrder {
    type V = Seq<LoadOrderItem>;

    closed spec fn view(&self) -> Seq<LoadOrderItem> {
        self.items@
    }
}

impl LoadOrder {
    #[verifier::type_invariant]
    closed spec fn inv(self) -> bool {
        distinct_ids(self.items@)
    }

    /// An empty load order.
    pub fn new() -> (r: LoadOrder)
        ensures
            r@ == Seq::<LoadOrderItem>::empty(),
    {
        LoadOrder { items: Vec::new() }
    }

    /// The number of plugins.
    pub fn len(&self) -> (r: usize)
        ensures
            r == self@.len(),
    {
        self.items.len()
    }

    /// The items, in the order they are stored.
    pub fn items(&self) -> (r: &Vec<LoadOrderItem>)
        ensures
            r@ == self@,
            distinct_ids(self@),
    {
        proof { use_type_invariant(self); }
        &self.items
    }

    /// The position of the plugin `id`, if the load order holds it.
    pub fn find(&self, id: &str) -> (r: Option<usize>)
        ensures
            r matches Some(i) ==> i < self@.len() && self@[i as int].0@ == id@,
            r is None ==> forall|i: int| 0 <= i < self@.len() ==> #[trigger] self@[i].0@ != id@,
    {
        let mut i: usize = 0;
        while i < self.items.len()
            invariant
                i <= self.items@.len(),
                forall|k: int| 0 <= k < i ==> #[trigger] self.items@[k].0@ != id@,
            decreases self.items@.len() - i,
        {
            if text_is(self.items[i].0.as_str(), id) {
                return Some(i);
            }
            i = i + 1;
        }
        None
    }

    /// The entry of plugin `id`, if the load order holds it.
    pub fn get(&self, id: &str) -> (r: Option<&LoadOrderEntry>)
        ensures
            r matches Some(e) ==> exists|i: int| 0 <= i < self@.len() && #[trigger] self@[i].0@ == id@ && self@[i].1 == *e,
            r is None ==> forall|i: int| 0 <= i < self@.len() ==> #[trigger] self@[i].0@ != id@,
    {
        match self.find(id) {
            Some(i) => Some(&self.items[i].1),
            None => None,
        }
    }

    /// Records `entry` for plugin `id`: it replaces the plugin's entry when the
    /// load order holds the plugin, and is added at the end otherwise.
    pub fn insert(&mut self, id: String, entry: LoadOrderEntry)
        ensures
            (exists|i: int| 0 <= i < old(self)@.len() && #[trigger] old(self)@[i].0@ == id@) ==>
                exists|i: int| 0 <= i < old(self)@.len() && #[trigger] old(self)@[i].0@ == id@
                    && final(self)@ == old(self)@.update(i, (id, entry)),
            (forall|i: int| 0 <= i < old(self)@.len() ==> #[trigger] old(self)@[i].0@ != id@) ==>
                final(self)@ == old(self)@.push((id, entry)),
    {
        proof { use_type_invariant(&*self); }
        let found = self.find(id.as_str());
        let mut items: Vec<LoadOrderItem> = Vec::new();
        std::mem::swap(&mut items, &mut self.items);
        match found {
            Some(i) => {
                items.set(i, (id, entry));
            },
            None => {
                items.push((id, entry));
            },
        }
        self.items = items;
    }

    /// Sets whether plugin `id` is enabled; returns whether the load order
    /// holds the plugin. Nothing else changes.
    pub fn set_enabled(&mut self, id: &str, enabled: bool) -> (found: bool)
        ensures
            found == exists|i: int| 0 <= i < old(self)@.len() && #[trigger] old(self)@[i].0@ == id@,
            final(self)@.len() == old(self)@.len(),
            forall|i: int| 0 <= i < old(self)@.len() ==> #[trigger] final(self)@[i] == (
                if old(self)@[i].0@ == id@ {
                    (old(self)@[i].0, LoadOrderEntry { enabled, ..old(self)@[i].1 })
                } else {
                    old(self)@[i]
                }),
    {
        proof { use_type_invariant(&*self); }
        match self.find(id) {
            Some(i) => {
                let mut items: Vec<LoadOrderItem> = Vec::new();
                std::mem::swap(&mut items, &mut self.items);
                let (pid, e) = items.remove(i);
                let e2 = LoadOrderEntry { enabled, ..e };
                items.insert(i, (pid, e2));
                self.items = items;
                assert forall|k: int| 0 <= k < old(self)@.len() && k != i implies #[trigger] old(self)@[k].0@ != id@ by {}
                true
            },
            None => false,
        }
    }

    /// Moves the plugin at position `from` of the load order table to position
    /// `to`: every priority `p` becomes `moved_priority(p, from, to)`.
    pub fn move_priorities(&mut self, from: usize, to: usize)
        ensures
            final(self)@.len() == old(self)@.len(),
            forall|i: int| 0 <= i < old(self)@.len() ==> #[trigger] final(self)@[i] == (
                old(self)@[i].0,
                LoadOrderEntry {
                    priority: moved_priority(old(self)@[i].1.priority, from as u32, to as u32),
                    ..old(self)@[i].1
                },
            ),
    {
        proof { use_type_invariant(&*self); }
        let from32: u32 = from as u32;
        let to32: u32 = to as u32;
        let ghost before = self.items@;
        let mut items: Vec<LoadOrderItem> = Vec::new();
        std::mem::swap(&mut items, &mut self.items);
        let mut i: usize = 0;
        while i < items.len()
            invariant
                i <= items@.len(),
                items@.len() == before.len(),
                distinct_ids(before),
                from32 == from as u32,
                to32 == to as u32,
                forall|k: int| i <= k < before.len() ==> #[trigger] items@[k] == before[k],
                forall|k: int| 0 <= k < i ==> #[trigger] items@[k] == (
                    before[k].0,
                    LoadOrderEntry {
                        priority: moved_priority(before[k].1.priority, from32, to32),
                        ..before[k].1
                    },
                ),
            decreases before.len() - i,
        {
            let (pid, e) = items.remove(i);
            let p = e.priority;
            let np: u32 = if p == from32 {
                to32
            } else if from32 < to32 && p >= from32 && p <= to32 && p != 0 {
                p - 1
            } else if from32 > to32 && p <= from32 && p >= to32 {
                p + 1
            } else {
                p
            };
            items.insert(i, (pid, LoadOrderEntry { priority: np, ..e }));
            i = i + 1;
        }
        proof {
            assert forall|a: int, b: int| 0 <= a < items@.len() && 0 <= b < items@.len() && a != b
                implies #[trigger] items@[a].0@ != #[trigger] items@[b].0@ by {
                assert(items@[a].0 == before[a].0);
                assert(items@[b].0 == before[b].0);
            }
        }
        self.items = items;
    }

    /// The items ordered by priority, lowest first.
    pub fn sorted_by_priority(&self) -> (r: Vec<LoadOrderItem>)
        ensures
            r@.to_multiset() == self@.to_multiset(),
            sorted_by_priority(r@),
    {
        let mut r: Vec<LoadOrderItem> = Vec::new();
        let mut i: usize = 0;
        while i < self.items.len()
            invariant
                i <= self.items@.len(),
                r@.to_multiset() == self.items@.take(i as int).to_multiset(),
                sorted_by_priority(r@),
            decreases self.items@.len() - i,
        {
            let x = clone_item(&self.items[i]);
            let p = x.1.priority;
            let mut pos: usize = 0;
            while pos < r.len() && r[pos].1.priority <= p
                invariant
                    pos <= r@.len(),
                    forall|k: int| 0 <= k < pos ==> #[trigger] r@[k].1.priority <= p,
                decreases r@.len() - pos,
            {
                pos = pos + 1;
            }
            let ghost old_r = r@;
            r.insert(pos, x);
            proof {
                assert(self.items@.take(i + 1) =~= self.items@.take(i as int).push(self.items@[i as int]));
                assert forall|a: int, b: int| 0 <= a <= b < r@.len() implies #[trigger] r@[a].1.priority <= #[trigger] r@[b].1.priority by {
                    if a < pos && b > pos {
                        assert(old_r[a].1.priority <= old_r[b - 1].1.priority);
                    } else if a < pos && b < pos {
                        assert(old_r[a].1.priority <= old_r[b].1.priority);
                    } else if a > pos {
                        assert(old_r[a - 1].1.priority <= old_r[b - 1].1.priority);
                    } else if a == pos && b > pos {
                        if pos < old_r.len() {
                            assert(old_r[pos as int].1.priority <= old_r[b - 1].1.priority);
                        }
                    }
                }
            }
            i = i + 1;
        }
        proof {
            assert(self.items@.take(self.items@.len() as int) =~= self.items@);
        }
        r
    }
}

impl Clone for LoadOrder {
    fn clone(&self) -> (r: Self)
        ensures
            r@ == self@,
    {
        proof { use_type_invariant(self); }
        let mut items: Vec<LoadOrderItem> = Vec::new();
        let mut i: usize = 0;
        while i < self.items.len()
            invariant
                i <= self.items@.len(),
                items@ == self.items@.take(i as int),
            decreases self.items@.len() - i,
        {
            items.push(clone_item(&self.items[i]));
            proof {
                assert(self.items@.take(i + 1) =~= self.items@.take(i as int).push(self.items@[i as int]));
            }
            i = i + 1;
        }
        proof {
            assert(self.items@.take(self.items@.len() as int) =~= self.items@);
        }
        LoadOrder { items }
    }
}

/// The sequence `s` with its item at position `from` taken out and put back in
/// at position `to`.
pub open spec fn seq_move<A>(s: Seq<A>, from: int, to: int) -> Seq<A> {
    s.remove(from).insert(to, s[from])
}

/// Among the priorities `0..n`, moving a plugin from `from` to `to` gives
/// distinct plugins distinct priorities, all still below `n`: priorities that
/// number the table's rows keep numbering them.
pub proof fn lemma_moved_priority_permutes(from: u32, to: u32, n: u32, p: u32, q: u32)
    requires
        from < n,
        to < n,
        p < n,
        q < n,
        p != q,
    ensures
        moved_priority(p, from, to) < n,
        moved_priority(q, from, to) < n,
        moved_priority(p, from, to) != moved_priority(q, from, to),
{
}

/// Moving a plugin among the priorities `0..n` keeps its priority below `n`.
pub proof fn lemma_moved_priority_bound(from: u32, to: u32, n: u32, p: u32)
    requires
        from < n,
        to < n,
        p < n,
    ensures
        moved_priority(p, from, to) < n,
{
}

/// When the priorities number the rows of the table, the plugin at row `k`
/// gets as its new priority its row in the table after the row at `from` has
/// been dragged to `to`.
pub proof fn lemma_moved_priority_is_row_move<A>(s: Seq<A>, from: u32, to: u32, k: u32)
    requires
        from < s.len(),
        to < s.len(),
        k < s.len(),
    ensures
        moved_priority(k, from, to) < s.len(),
        seq_move(s, from as int, to as int)[moved_priority(k, from, to) as int] == s[k as int],
{
    let r = s.remove(from as int);
    assert(r.len() == s.len() - 1);
    let m = seq_move(s, from as int, to as int);
    assert(m.len() == s.len());
    if k == from {
    } else if k < from {
        assert(r[k as int] == s[k as int]);
        if k < to {
            assert(m[k as int] == r[k as int]);
        } else {
            assert(m[k as int + 1] == r[k as int]);
        }
    } else {
        assert(r[k as int - 1] == s[k as int]);
        if k <= to {
            assert(m[k as int - 1] == r[k as int - 1]);
        } else {
            assert(m[k as int] == r[k as int - 1]);
        }
    }
}

/// Moving a plugin keeps the order of all other plugins: of two plugins other
/// than the moved one, the one that loaded first still loads first.
pub proof fn lemma_moved_priority_keeps_order(from: u32, to: u32, p: u32, q: u32)
    requires
        p != from,
        q != from,
        p < q,
    ensures
        moved_priority(p, from, to) < moved_priority(q, from, to),
{
}

/// Dragging the row at `to` back to `from` undoes dragging the row at `from`
/// to `to`: every row of the table is reached by the move.
pub proof fn lemma_moved_priority_undo(from: u32, to: u32, n: u32, j: u32)
    requires
        from < n,
        to < n,
        j < n,
    ensures
        moved_priority(moved_priority(j, to, from), from, to) == j,
        moved_priority(j, to, from) < n,
{
}

/// The moved plugin takes the priority it was dragged to.
pub proof fn lemma_moved_priority_target(from: u32, to: u32)
    ensures
        moved_priority(from, from, to) == to,
{
}

/// `lo` with every priority moved as dragging row `from` to row `to` moves it.
pub open spec fn lo_moved(lo: Seq<LoadOrderItem>, from: usize, to: usize) -> Seq<LoadOrderItem> {
    Seq::new(lo.len(), |k: int| moved_item(lo[k], from, to))
}

/// An item with its priority moved as dragging row `from` to row `to` moves it.
pub open spec fn moved_item(item: LoadOrderItem, from: usize, to: usize) -> LoadOrderItem {
    (item.0, LoadOrderEntry { priority: moved_priority(item.1.priority, from as u32, to as u32), ..item.1 })
}

/// The priorities of `s` number its items: the item at position `k` has
/// priority `k`.
pub open spec fn numbered(s: Seq<LoadOrderItem>) -> bool {
    forall|k: int| 0 <= k < s.len() ==> #[trigger] s[k].1.priority == k
}

proof fn lemma_increasing_lower(t: Seq<LoadOrderItem>, j: int)
    requires
        sorted_by_priority(t),
        forall|a: int, b: int| 0 <= a < t.len() && 0 <= b < t.len() && a != b ==> #[trigger] t[a].1.priority != #[trigger] t[b].1.priority,
        0 <= j < t.len(),
    ensures
        t[j].1.priority >= j,
    decreases j,
{
    if j > 0 {
        lemma_increasing_lower(t, j - 1);
        assert(t[j - 1].1.priority <= t[j].1.priority);
        assert(t[j - 1].1.priority != t[j].1.priority);
    }
}

proof fn lemma_increasing_upper(t: Seq<LoadOrderItem>, j: int)
    requires
        sorted_by_priority(t),
        forall|a: int, b: int| 0 <= a < t.len() && 0 <= b < t.len() && a != b ==> #[trigger] t[a].1.priority != #[trigger] t[b].1.priority,
        forall|a: int| 0 <= a < t.len() ==> #[trigger] t[a].1.priority < t.len(),
        0 <= j < t.len(),
    ensures
        t[j].1.priority <= j,
    decreases t.len() - j,
{
    if j + 1 < t.len() {
        lemma_increasing_upper(t, j + 1);
        assert(t[j].1.priority <= t[j + 1].1.priority);
        assert(t[j].1.priority != t[j + 1].1.priority);
    } else {
        assert(t[j].1.priority < t.len());
    }
}

/// Items sorted by priority whose priorities are distinct and below their
/// number are numbered by their priorities.
pub proof fn lemma_sorted_distinct_numbered(t: Seq<LoadOrderItem>)
    requires
        sorted_by_priority(t),
        forall|a: int, b: int| 0 <= a < t.len() && 0 <= b < t.len() && a != b ==> #[trigger] t[a].1.priority != #[trigger] t[b].1.priority,
        forall|a: int| 0 <= a < t.len() ==> #[trigger] t[a].1.priority < t.len(),
    ensures
        numbered(t),
{
    assert forall|k: int| 0 <= k < t.len() implies #[trigger] t[k].1.priority == k by {
        lemma_increasing_lower(t, k);
        lemma_increasing_upper(t, k);
    }
}

/// Items with equal multisets hold the same items.
proof fn lemma_same_items<A>(a: Seq<A>, b: Seq<A>, x: A)
    requires
        a.to_multiset() == b.to_multiset(),
        a.contains(x),
    ensures
        b.contains(x),
{
    a.to_multiset_ensures();
    b.to_multiset_ensures();
    assert(a.to_multiset().count(x) > 0);
    assert(b.to_multiset().count(x) > 0);
}

/// The table of a load order whose priorities number its rows, after the row
/// at `from` was dragged to `to` and the load order sorted again: the item of
/// row `k` now stands in row `moved_priority(k)`, with that priority, and the
/// priorities again number the rows.
pub proof fn lemma_sorted_after_move(
    s: Seq<LoadOrderItem>,
    lo: Seq<LoadOrderItem>,
    t: Seq<LoadOrderItem>,
    from: usize,
    to: usize,
)
    requires
        s.to_multiset() == lo.to_multiset(),
        numbered(s),
        s.len() <= u32::MAX,
        from < s.len(),
        to < s.len(),
        t.to_multiset() == lo_moved(lo, from, to).to_multiset(),
        sorted_by_priority(t),
    ensures
        t.len() == s.len(),
        numbered(t),
        forall|k: int| 0 <= k < s.len() ==> #[trigger] t[moved_priority(k as u32, from as u32, to as u32) as int] == moved_item(s[k], from, to),
{
    let n = s.len();
    let lm = lo_moved(lo, from, to);
    s.to_multiset_ensures();
    lo.to_multiset_ensures();
    t.to_multiset_ensures();
    lm.to_multiset_ensures();
    assert(lo.len() == n);
    assert(t.len() == n);
    // s has no two equal items: their priorities differ
    assert(s.no_duplicates()) by {
        assert forall|i: int, j: int| 0 <= i < n && 0 <= j < n && i != j implies s[i] != s[j] by {
            assert(s[i].1.priority == i);
            assert(s[j].1.priority == j);
        }
    }
    s.lemma_multiset_has_no_duplicates();
    // every item of lo is an item of s
    assert forall|m: int| #![trigger lo[m]] 0 <= m < lo.len() implies exists|k: int| 0 <= k < n && #[trigger] s[k] == lo[m] by {
        assert(lo.contains(lo[m]));
        lemma_same_items(lo, s, lo[m]);
    }
    // lo has no two equal items
    assert(lo.no_duplicates()) by {
        assert forall|x: LoadOrderItem| lo.to_multiset().contains(x) implies lo.to_multiset().count(x) == 1 by {
            assert(s.to_multiset().contains(x));
        }
        lo.lemma_multiset_has_no_duplicates_conv();
    }
    // moved priorities of lo stay below n and distinct
    assert forall|m: int| #![trigger lm[m]] 0 <= m < n implies exists|k: int| 0 <= k < n && #[trigger] lm[m] == moved_item(s[k], from, to) by {
        let k = choose|k: int| 0 <= k < n && #[trigger] s[k] == lo[m];
        assert(lm[m] == moved_item(s[k], from, to));
    }
    assert(lm.no_duplicates()) by {
        assert forall|a: int, b: int| 0 <= a < n && 0 <= b < n && a != b implies lm[a] != lm[b] by {
            let ka = choose|k: int| 0 <= k < n && #[trigger] s[k] == lo[a];
            let kb = choose|k: int| 0 <= k < n && #[trigger] s[k] == lo[b];
            assert(s[ka].1.priority == ka);
            assert(s[kb].1.priority == kb);
            if lm[a] == lm[b] {
                if ka != kb {
                    lemma_moved_priority_permutes(from as u32, to as u32, n as u32, ka as u32, kb as u32);
                }
                assert(lo[a] == lo[b]);
            }
        }
    }
    lm.lemma_multiset_has_no_duplicates();
    // every item of t is a moved item of s
    assert forall|j: int| #![trigger t[j]] 0 <= j < n implies exists|k: int| 0 <= k < n && #[trigger] t[j] == moved_item(s[k], from, to) by {
        assert(t.contains(t[j]));
        lemma_same_items(t, lm, t[j]);
        let m = choose|m: int| 0 <= m < n && lm[m] == t[j];
        let k = choose|k: int| 0 <= k < n && #[trigger] lm[m] == moved_item(s[k], from, to);
    }
    assert(t.no_duplicates()) by {
        assert forall|x: LoadOrderItem| t.to_multiset().contains(x) implies t.to_multiset().count(x) == 1 by {
            assert(lm.to_multiset().contains(x));
        }
        t.lemma_multiset_has_no_duplicates_conv();
    }
    // the priorities of t are distinct and below n
    assert forall|a: int| 0 <= a < n implies #[trigger] t[a].1.priority < n by {
        let k = choose|k: int| 0 <= k < n && #[trigger] t[a] == moved_item(s[k], from, to);
        assert(s[k].1.priority == k);
        lemma_moved_priority_bound(from as u32, to as u32, n as u32, k as u32);
    }
    assert forall|a: int, b: int| 0 <= a < t.len() && 0 <= b < t.len() && a != b implies #[trigger] t[a].1.priority != #[trigger] t[b].1.priority by {
        let ka = choose|k: int| 0 <= k < n && #[trigger] t[a] == moved_item(s[k], from, to);
        let kb = choose|k: int| 0 <= k < n && #[trigger] t[b] == moved_item(s[k], from, to);
        assert(s[ka].1.priority == ka);
        assert(s[kb].1.priority == kb);
        if ka != kb {
            lemma_moved_priority_permutes(from as u32, to as u32, n as u32, ka as u32, kb as u32);
        }
    }
    lemma_sorted_distinct_numbered(t);
    // the moved item of row k stands in row moved_priority(k)
    assert forall|k: int| 0 <= k < s.len() implies #[trigger] t[moved_priority(k as u32, from as u32, to as u32) as int] == moved_item(s[k], from, to) by {
        let x = moved_item(s[k], from, to);
        assert(s.contains(s[k]));
        lemma_same_items(s, lo, s[k]);
        let m = choose|m: int| 0 <= m < lo.len() && lo[m] == s[k];
        assert(lm[m] == x);
        assert(lm.contains(x));
        lemma_same_items(lm, t, x);
        let j = choose|j: int| 0 <= j < t.len() && t[j] == x;
        assert(s[k].1.priority == k);
        assert(t[j].1.priority == j);
    }
}

} // verus!
