//! The menu tree: entries appended in call order, submenus moved into their
//! parent, and the accelerator table of a whole tree gathered at its root.
use vstd::prelude::*;

use crate::accel::{has_cmd, insert_accel, keys_unique, lemma_table_map_push, table_map, Accel};

verus! {

/// A leaf entry: a command id, its label, an optional check state and
/// whether it can be chosen.
pub struct MenuItem {
    pub id: u32,
    pub text: String,
    pub selected: Option<bool>,
    pub enabled: bool,
}

/// A titled entry that opens a child menu.
pub struct Submenu {
    pub title: String,
    pub enabled: bool,
    pub menu: Menu,
}

/// One entry of a menu.
pub enum MenuEntry {
    Item(MenuItem),
    Separator,
    Dropdown(Submenu),
}

/// What an entry is, with labels as character sequences.
pub enum EntrySpec {
    Item { id: u32, text: Seq<char>, selected: Option<bool>, enabled: bool },
    Separator,
    Dropdown { title: Seq<char>, enabled: bool, menu: Menu },
}

impl View for MenuEntry {
    type V = EntrySpec;

    open spec fn view(&self) -> EntrySpec {
        match self {
            MenuEntry::Item(it) => EntrySpec::Item {
                id: it.id,
                text: it.text@,
                selected: it.selected,
                enabled: it.enabled,
            },
            MenuEntry::Separator => EntrySpec::Separator,
            MenuEntry::Dropdown(s) => EntrySpec::Dropdown {
                title: s.title@,
                enabled: s.enabled,
                menu: s.menu,
            },
        }
    }
}

/// The abstract state of a menu: its flavour, its entries in order, and the
/// accelerator table keyed by command id.
pub struct MenuView {
    pub popup: bool,
    pub entries: Seq<EntrySpec>,
    pub accels: Map<u16, Accel>,
}

/// A menu that owns its entries. A submenu handed to `add_dropdown` is moved
/// into its parent, which is from then on its sole owner.
pub struct Menu {
    popup: bool,
    entries: Vec<MenuEntry>,
    accels: Vec<Accel>,
}

/// The abstract form of an entry, as a function for `map_values`.
pub open spec fn entry_view(e: MenuEntry) -> EntrySpec {
    e@
}

impl View for Menu {
    type V = MenuView;

    closed spec fn view(&self) -> MenuView {
        MenuView {
            popup: self.popup,
            entries: self.entries@.map_values(|e: MenuEntry| entry_view(e)),
            accels: table_map(self.accels@),
        }
    }
}

/// `e` is the leaf entry that `add_item(id, text, selected, enabled)` appends.
pub open spec fn is_item_entry(
    e: EntrySpec,
    id: u32,
    text: Seq<char>,
    selected: Option<bool>,
    enabled: bool,
) -> bool {
    e == (EntrySpec::Item { id, text, selected, enabled })
}

/// `e` is the entry that `add_dropdown(child, title, enabled)` appends: it
/// holds the child's flavour and entries, and no accelerators of its own.
pub open spec fn is_dropdown_entry(e: EntrySpec, child: MenuView, title: Seq<char>, enabled: bool) -> bool {
    &&& e matches EntrySpec::Dropdown { title: t, enabled: en, menu: m }
    &&& t == title
    &&& en == enabled
    &&& m.wf()
    &&& m@.popup == child.popup
    &&& m@.entries == child.entries
    &&& m@.accels == Map::<u16, Accel>::empty()
}

/// One building call: `add_item`, `add_separator` or `add_dropdown`, with
/// its arguments (a submenu by its abstract state).
pub enum BuildOp {
    Item { id: u32, text: Seq<char>, selected: Option<bool>, enabled: bool },
    Separator,
    Dropdown { title: Seq<char>, enabled: bool, child: MenuView },
}

/// `e` is the entry that the call `op` appends.
pub open spec fn entry_of_op(e: EntrySpec, op: BuildOp) -> bool {
    match op {
        BuildOp::Item { id, text, selected, enabled } => is_item_entry(e, id, text, selected, enabled),
        BuildOp::Separator => e == EntrySpec::Separator,
        BuildOp::Dropdown { title, enabled, child } => is_dropdown_entry(e, child, title, enabled),
    }
}

/// The call `op` took a menu from `before` to `after`: one entry appended,
/// the earlier ones untouched.
pub open spec fn step(before: MenuView, op: BuildOp, after: MenuView) -> bool {
    &&& after.entries.len() == before.entries.len() + 1
    &&& after.entries.drop_last() == before.entries
    &&& entry_of_op(after.entries.last(), op)
}

/// Any sequence of building calls leaves one entry per call, after the
/// entries that were there, in call order: nothing reordered or merged.
pub proof fn lemma_build_order(states: Seq<MenuView>, ops: Seq<BuildOp>)
    requires
        states.len() == ops.len() + 1,
        forall|i: int| 0 <= i < ops.len() ==> step(#[trigger] states[i], ops[i], states[i + 1]),
    ensures
        states.last().entries.len() == states[0].entries.len() + ops.len(),
        states.last().entries.take(states[0].entries.len() as int) == states[0].entries,
        forall|i: int|
            0 <= i < ops.len() ==> entry_of_op(
                #[trigger] states.last().entries[states[0].entries.len() + i],
                ops[i],
            ),
    decreases ops.len(),
{
    if ops.len() > 0 {
        let n = ops.len() - 1;
        let pre_s = states.take(states.len() - 1);
        let pre_o = ops.take(n);
        assert forall|i: int| 0 <= i < pre_o.len() implies step(
            #[trigger] pre_s[i],
            pre_o[i],
            pre_s[i + 1],
        ) by {
            assert(step(states[i], ops[i], states[i + 1]));
        }
        lemma_build_order(pre_s, pre_o);
        let mid = states[n];
        let last = states.last();
        let base = states[0].entries.len() as int;
        assert(pre_s.last() == mid);
        assert(step(states[n], ops[n], states[n + 1]));
        assert(last.entries.drop_last() == mid.entries);
        assert(last.entries.take(base) =~= mid.entries.take(base)) by {
            assert forall|j: int| 0 <= j < base implies last.entries[j] == mid.entries[j] by {
                assert(last.entries.drop_last()[j] == last.entries[j]);
            }
        }
        assert forall|i: int| 0 <= i < ops.len() implies entry_of_op(
            #[trigger] last.entries[base + i],
            ops[i],
        ) by {
            if i < n {
                assert(pre_o[i] == ops[i]);
                assert(entry_of_op(mid.entries[base + i], pre_o[i]));
                assert(last.entries.drop_last()[base + i] == last.entries[base + i]);
            }
        }
    }
}

impl Menu {
    /// The accelerator table holds at most one record per command id.
    pub closed spec fn wf(&self) -> bool {
        keys_unique(self.accels@)
    }

    /// Create a new empty window or application menu.
    pub fn new() -> (r: Menu)
        ensures
            r.wf(),
            !r@.popup,
            r@.entries.len() == 0,
            r@.accels == Map::<u16, Accel>::empty(),
    {
        let r = Menu { popup: false, entries: Vec::new(), accels: Vec::new() };
        proof {
            crate::accel::lemma_table_map_empty(r.accels@);
            assert(r@.entries =~= Seq::<EntrySpec>::empty());
        }
        r
    }

    /// Create a new empty context menu.
    pub fn new_for_popup() -> (r: Menu)
        ensures
            r.wf(),
            r@.popup,
            r@.entries.len() == 0,
            r@.accels == Map::<u16, Accel>::empty(),
    {
        let r = Menu { popup: true, entries: Vec::new(), accels: Vec::new() };
        proof {
            crate::accel::lemma_table_map_empty(r.accels@);
            assert(r@.entries =~= Seq::<EntrySpec>::empty());
        }
        r
    }

    proof fn lemma_push_entry(&self, e: MenuEntry)
        ensures
            self.entries@.push(e).map_values(|x: MenuEntry| entry_view(x))
                == self.entries@.map_values(|x: MenuEntry| entry_view(x)).push(e@),
    {
        assert(self.entries@.push(e).map_values(|x: MenuEntry| entry_view(x))
            =~= self.entries@.map_values(|x: MenuEntry| entry_view(x)).push(e@));
    }

    /// Add an item to this menu.
    pub fn add_item(&mut self, id: u32, text: &str, selected: Option<bool>, enabled: bool)
        requires
            old(self).wf(),
        ensures
            final(self).wf(),
            final(self)@.popup == old(self)@.popup,
            final(self)@.accels == old(self)@.accels,
            final(self)@.entries == old(self)@.entries.push(
                EntrySpec::Item { id, text: text@, selected, enabled },
            ),
            step(old(self)@, BuildOp::Item { id, text: text@, selected, enabled }, final(self)@),
    {
        let item = MenuItem { id, text: text.to_owned(), selected, enabled };
        let e = MenuEntry::Item(item);
        proof {
            self.lemma_push_entry(e);
        }
        self.entries.push(e);
        proof {
            assert(self@.entries.drop_last() =~= old(self)@.entries);
        }
    }

    /// Add a separator to the menu.
    pub fn add_separator(&mut self)
        requires
            old(self).wf(),
        ensures
            final(self).wf(),
            final(self)@.popup == old(self)@.popup,
            final(self)@.accels == old(self)@.accels,
            final(self)@.entries == old(self)@.entries.push(EntrySpec::Separator),
            step(old(self)@, BuildOp::Separator, final(self)@),
    {
        proof {
            self.lemma_push_entry(MenuEntry::Separator);
        }
        self.entries.push(MenuEntry::Separator);
        proof {
            assert(self@.entries.drop_last() =~= old(self)@.entries);
        }
    }

    /// Register an accelerator for the command it names. A record already
    /// held for that command is replaced.
    pub fn add_accel(&mut self, accel: Accel)
        requires
            old(self).wf(),
        ensures
            final(self).wf(),
            final(self)@.popup == old(self)@.popup,
            final(self)@.entries == old(self)@.entries,
            final(self)@.accels == old(self)@.accels.insert(accel.cmd, accel),
    {
        insert_accel(&mut self.accels, accel);
    }

    /// Add the provided `Menu` as a submenu of self, with the provided title.
    /// The child's accelerators move into this menu's table; a record of the
    /// child wins over one of this menu with the same command id.
    pub fn add_dropdown(&mut self, menu: Menu, text: &str, enabled: bool)
        requires
            old(self).wf(),
            menu.wf(),
        ensures
            final(self).wf(),
            final(self)@.popup == old(self)@.popup,
            final(self)@.accels == old(self)@.accels.union_prefer_right(menu@.accels),
            final(self)@.entries.len() == old(self)@.entries.len() + 1,
            final(self)@.entries.drop_last() == old(self)@.entries,
            is_dropdown_entry(final(self)@.entries.last(), menu@, text@, enabled),
            step(old(self)@, BuildOp::Dropdown { title: text@, enabled, child: menu@ }, final(self)@),
    {
        let ghost child_view = menu@;
        let Menu { popup, entries, accels: child_accels } = menu;
        let ghost start = table_map(self.accels@);
        let n = child_accels.len();
        let mut i: usize = 0;
        proof {
            crate::accel::lemma_table_map_empty(child_accels@.take(0));
            assert(start.union_prefer_right(table_map(child_accels@.take(0))) =~= start);
        }
        while i < n
            invariant
                n == child_accels.len(),
                i <= n,
                keys_unique(child_accels@),
                keys_unique(self.accels@),
                self.entries == old(self).entries,
                self.popup == old(self).popup,
                table_map(self.accels@) == start.union_prefer_right(
                    table_map(child_accels@.take(i as int)),
                ),
            decreases n - i,
        {
            let a = child_accels[i];
            let ghost pre = child_accels@.take(i as int);
            proof {
                assert(child_accels@.take(i as int + 1) =~= pre.push(a));
                assert(keys_unique(pre));
                if has_cmd(pre, a.cmd) {
                    let j = choose|j: int| 0 <= j < pre.len() && #[trigger] pre[j].cmd == a.cmd;
                    assert(child_accels@[j].cmd == child_accels@[i as int].cmd);
                }
                lemma_table_map_push(pre, a);
                assert(start.union_prefer_right(table_map(pre).insert(a.cmd, a))
                    =~= start.union_prefer_right(table_map(pre)).insert(a.cmd, a));
            }
            insert_accel(&mut self.accels, a);
            i = i + 1;
        }
        proof {
            assert(child_accels@.take(n as int) =~= child_accels@);
        }
        let child = Menu { popup, entries, accels: Vec::new() };
        proof {
            crate::accel::lemma_table_map_empty(child.accels@);
        }
        let e = MenuEntry::Dropdown(Submenu { title: text.to_owned(), enabled, menu: child });
        proof {
            self.lemma_push_entry(e);
        }
        self.entries.push(e);
        proof {
            assert(self@.entries.drop_last() =~= old(self)@.entries);
        }
    }

    /// Whether this menu was made for popup presentation.
    pub fn is_popup(&self) -> (r: bool)
        ensures
            r == self@.popup,
    {
        self.popup
    }

    /// The number of entries.
    pub fn len(&self) -> (r: usize)
        ensures
            r == self@.entries.len(),
    {
        self.entries.len()
    }

    /// The entries, in the order in which they were added.
    pub fn entries(&self) -> (r: &[MenuEntry])
        ensures
            r@.map_values(|e: MenuEntry| entry_view(e)) == self@.entries,
    {
        self.entries.as_slice()
    }

    /// The accelerator table of the whole tree built so far, one record per
    /// command id, in no promised order; `None` when it is empty.
    pub fn accels(&self) -> (r: Option<Vec<Accel>>)
        requires
            self.wf(),
        ensures
            r is None <==> self@.accels == Map::<u16, Accel>::empty(),
            r matches Some(v) ==> {
                &&& v.len() == self@.accels.dom().len()
                &&& forall|i: int| 0 <= i < v.len() ==> #[trigger] self@.accels.contains_key(v[i].cmd)
                    && self@.accels[v[i].cmd] == v[i]
                &&& forall|k: u16| #[trigger] self@.accels.contains_key(k) ==> exists|i: int|
                    0 <= i < v.len() && #[trigger] v[i].cmd == k
                &&& forall|i: int, j: int|
                    0 <= i < v.len() && 0 <= j < v.len() && i != j ==> #[trigger] v[i].cmd
                        != #[trigger] v[j].cmd
            },
    {
        proof {
            crate::accel::lemma_table_map_empty(self.accels@);
        }
        if self.accels.len() == 0 {
            return None;
        }
        let mut v: Vec<Accel> = Vec::new();
        let n = self.accels.len();
        let mut i: usize = 0;
        while i < n
            invariant
                n == self.accels.len(),
                i <= n,
                v@ == self.accels@.take(i as int),
            decreases n - i,
        {
            v.push(self.accels[i]);
            i = i + 1;
            proof {
                assert(v@ =~= self.accels@.take(i as int));
            }
        }
        proof {
            assert(v@ =~= self.accels@);
            assert forall|i: int| 0 <= i < v.len() implies #[trigger] self@.accels.contains_key(v[i].cmd)
                && self@.accels[v[i].cmd] == v[i] by {
                crate::accel::lemma_table_map_at(self.accels@, i);
            }
            crate::accel::lemma_table_map_len(self.accels@);
            assert forall|k: u16| #[trigger] self@.accels.contains_key(k) implies exists|i: int|
                0 <= i < v.len() && #[trigger] v[i].cmd == k by {
                assert(has_cmd(self.accels@, k));
                let i = choose|i: int| 0 <= i < self.accels@.len() && #[trigger] self.accels@[i].cmd == k;
                assert(v[i].cmd == k);
            }
            assert(keys_unique(v@));
        }
        Some(v)
    }
}

/// Attaching `child` under `parent` keeps every accelerator the child held:
/// after the merge that `add_dropdown` performs, the parent's table has each
/// of the child's command ids, bound to the child's record.
pub proof fn lemma_dropdown_keeps_child_accels(parent: Menu, child: Menu)
    ensures
        forall|k: u16| #[trigger] child@.accels.contains_key(k) ==> {
            &&& parent@.accels.union_prefer_right(child@.accels).contains_key(k)
            &&& parent@.accels.union_prefer_right(child@.accels)[k] == child@.accels[k]
        },
{
}

/// The table that `add_dropdown` leaves on the parent is empty exactly when
/// both the parent's and the child's tables were empty, so a tree's root
/// reports no accelerators only when no menu of the tree registered one.
pub proof fn lemma_merged_accels_empty(parent: Menu, child: Menu)
    ensures
        (parent@.accels.union_prefer_right(child@.accels) == Map::<u16, Accel>::empty()) <==> (
        parent@.accels == Map::<u16, Accel>::empty() && child@.accels == Map::<u16, Accel>::empty()),
{
    let m = parent@.accels.union_prefer_right(child@.accels);
    if parent@.accels == Map::<u16, Accel>::empty() && child@.accels == Map::<u16, Accel>::empty() {
        assert(m =~= Map::<u16, Accel>::empty());
    }
    if m == Map::<u16, Accel>::empty() {
        assert(parent@.accels =~= Map::<u16, Accel>::empty()) by {
            assert forall|k: u16| !#[trigger] parent@.accels.contains_key(k) by {
                assert(!m.contains_key(k));
            }
        }
        assert(child@.accels =~= Map::<u16, Accel>::empty()) by {
            assert forall|k: u16| !#[trigger] child@.accels.contains_key(k) by {
                assert(!m.contains_key(k));
            }
        }
    }
}

impl Default for Menu {
    /// The same as `Menu::new`.
    fn default() -> (r: Menu)
        ensures
            r.wf(),
            !r@.popup,
            r@.entries.len() == 0,
            r@.accels == Map::<u16, Accel>::empty(),
    {
        Menu::new()
    }
}

} // verus!
