//! State behind the DBusMenu service: the menu tree with its check states and
//! the layout revision, and the requests the service answers from it.

use vstd::prelude::*;
use crate::menu::{
    MenuItem, ThemeMode, MenuCommand, LayoutItem, PropValue, PropSpec, find_spec, find_in, props_spec,
    props_view, filter_view,
};
use crate::layout::is_layout;
use crate::text::str_eq;
use crate::toggle::{toggled, lemma_first_holder_at, lemma_find_in_all_none, lemma_find_in_none_all};
use crate::tree::{
    menu_shape, view_shape, theme_shape, accent_shape, file_menu, is_radio, theme_flags,
    accent_flags, ID_THEME_SYSTEM, ID_THEME_LIGHT, ID_THEME_DARK, ID_ACCENT_BASE, ID_QUIT,
    MAX_ACCENTS, theme_mode_id, theme_all_ids, theme_id, build, names_view, command_of, id_to_command,
};

verus! {

/// A node without children is found only by its own id.
proof fn lemma_leaf_find(m: MenuItem, id: i32)
    requires
        m.children@.len() == 0,
    ensures
        find_spec(m, id) == (if m.id == id { Some(m) } else { None::<MenuItem> }),
{
    assert(find_in(m.children@, id) is None);
}

/// A list in which some subtree holds `id` holds it.
proof fn lemma_find_in_found(s: Seq<MenuItem>, id: i32, k: int)
    requires
        0 <= k < s.len(),
        find_spec(s[k], id) is Some,
    ensures
        find_in(s, id) is Some,
{
    if find_in(s, id) is None {
        lemma_find_in_none_all(s, id);
    }
}

/// The File menu holds no id above its last item.
proof fn lemma_file_lacks(f: MenuItem, id: i32)
    requires
        file_menu(f),
        id > ID_QUIT,
    ensures
        find_spec(f, id) is None,
{
    let s = f.children@;
    lemma_leaf_find(s[0], id);
    lemma_leaf_find(s[1], id);
    lemma_leaf_find(s[2], id);
    lemma_leaf_find(s[3], id);
    lemma_find_in_all_none(s, id);
}

/// Ids of the theme radios, in menu order.
pub open spec fn theme_ids() -> Seq<i32> {
    seq![ID_THEME_SYSTEM, ID_THEME_LIGHT, ID_THEME_DARK]
}

/// In a menu of this shape the theme radio `k` is found, and setting its
/// check state changes that state and nothing else.
proof fn lemma_toggle_theme(
    o: MenuItem,
    n: MenuItem,
    tf: Seq<bool>,
    af: Seq<bool>,
    names: Seq<Seq<char>>,
    k: int,
    st: bool,
)
    requires
        menu_shape(o, tf, af, names),
        0 <= k < 3,
    ensures
        find_spec(o, theme_ids()[k]) is Some,
        toggled(o, n, theme_ids()[k], st) ==> menu_shape(n, tf.update(k, st), af, names),
{
    let id = theme_ids()[k];
    let f = o.children@[0];
    let v = o.children@[1];
    let t = v.children@[2];
    lemma_file_lacks(f, id);
    lemma_leaf_find(t.children@[0], id);
    lemma_leaf_find(t.children@[1], id);
    lemma_leaf_find(t.children@[2], id);
    lemma_find_in_found(t.children@, id, k);
    assert(find_spec(t, id) is Some);
    lemma_leaf_find(v.children@[0], id);
    lemma_leaf_find(v.children@[1], id);
    lemma_find_in_found(v.children@, id, 2);
    assert(find_spec(v, id) is Some);
    lemma_find_in_found(o.children@, id, 1);
    lemma_first_holder_at(o.children@, id, 1);
    lemma_first_holder_at(v.children@, id, 2);
    lemma_first_holder_at(t.children@, id, k);
    if toggled(o, n, id, st) {
        let nv = n.children@[1];
        assert(toggled(v, nv, id, st));
        let nt = nv.children@[2];
        assert(toggled(t, nt, id, st));
        let nl = nt.children@[k];
        assert(toggled(t.children@[k], nl, id, st));
        let tf2 = tf.update(k, st);
        assert(theme_shape(nt, tf2));
        assert(view_shape(nv, tf2, af, names));
    }
}

/// In a menu of this shape the accent radio `i` is found, and setting its
/// check state changes that state and nothing else.
proof fn lemma_toggle_accent(
    o: MenuItem,
    n: MenuItem,
    tf: Seq<bool>,
    af: Seq<bool>,
    names: Seq<Seq<char>>,
    i: int,
    st: bool,
)
    requires
        menu_shape(o, tf, af, names),
        0 <= i < names.len(),
    ensures
        find_spec(o, (ID_ACCENT_BASE + i) as i32) is Some,
        toggled(o, n, (ID_ACCENT_BASE + i) as i32, st) ==> menu_shape(n, tf, af.update(i, st), names),
{
    let id = (ID_ACCENT_BASE + i) as i32;
    let f = o.children@[0];
    let v = o.children@[1];
    let t = v.children@[2];
    let a = v.children@[3];
    lemma_file_lacks(f, id);
    lemma_leaf_find(t.children@[0], id);
    lemma_leaf_find(t.children@[1], id);
    lemma_leaf_find(t.children@[2], id);
    lemma_find_in_all_none(t.children@, id);
    assert(find_spec(t, id) is None);
    lemma_leaf_find(v.children@[0], id);
    lemma_leaf_find(v.children@[1], id);
    assert forall|j: int| 0 <= j < i implies #[trigger] find_spec(a.children@[j], id) is None by {
        lemma_leaf_find(a.children@[j], id);
    }
    lemma_leaf_find(a.children@[i], id);
    lemma_find_in_found(a.children@, id, i);
    assert(find_spec(a, id) is Some);
    lemma_find_in_found(v.children@, id, 3);
    assert(find_spec(v, id) is Some);
    lemma_find_in_found(o.children@, id, 1);
    lemma_first_holder_at(o.children@, id, 1);
    lemma_first_holder_at(v.children@, id, 3);
    lemma_first_holder_at(a.children@, id, i);
    if toggled(o, n, id, st) {
        let nv = n.children@[1];
        assert(toggled(v, nv, id, st));
        let na = nv.children@[3];
        assert(toggled(a, na, id, st));
        let nl = na.children@[i];
        assert(toggled(a.children@[i], nl, id, st));
        let af2 = af.update(i, st);
        assert forall|j: int| #![trigger na.children@[j]] 0 <= j < names.len() implies
            is_radio(na.children@[j], (ID_ACCENT_BASE + j) as i32, names[j], af2[j]) by {
            if j != i {
                assert(na.children@[j] == a.children@[j]);
            }
        }
        assert(accent_shape(na, af2, names));
        assert(view_shape(nv, tf, af2, names));
    }
}

/// `n` is `o` after setting the check state of its first node with `id` to
/// `st`; `o` itself when it has no such node.
pub open spec fn toggle_step(o: MenuItem, n: MenuItem, id: i32, st: bool) -> bool {
    if find_spec(o, id) is Some {
        toggled(o, n, id, st)
    } else {
        n == o
    }
}

/// `trees` goes from its first tree to its last by setting, in turn, the
/// check state of item `ids[j]` to `sts[j]`.
pub open spec fn toggle_chain(trees: Seq<MenuItem>, ids: Seq<i32>, sts: Seq<bool>) -> bool {
    &&& trees.len() == ids.len() + 1
    &&& sts.len() == ids.len()
    &&& forall|j: int| #![trigger ids[j]] 0 <= j < ids.len() ==> toggle_step(trees[j], trees[j + 1], ids[j], sts[j])
}

/// `n` is `o` after a theme change to `mode`: each theme radio, in menu order,
/// set to whether it is the radio of `mode`.
pub open spec fn theme_updated(o: MenuItem, n: MenuItem, mode: ThemeMode) -> bool {
    exists|trees: Seq<MenuItem>|
        #![trigger toggle_chain(trees, theme_ids(), theme_flags(mode))]
        toggle_chain(trees, theme_ids(), theme_flags(mode)) && trees[0] == o && trees[3] == n
}

/// Ids of the first `count` accent radios.
pub open spec fn accent_ids(count: nat) -> Seq<i32> {
    Seq::new(count, |i: int| (ID_ACCENT_BASE + i) as i32)
}

/// `n` is `o` after selecting accent preset `idx` out of `count`: each accent
/// radio, in order, set to whether it is radio `idx`.
pub open spec fn accent_updated(o: MenuItem, n: MenuItem, idx: usize, count: nat) -> bool {
    exists|trees: Seq<MenuItem>|
        #![trigger toggle_chain(trees, accent_ids(count), accent_flags(idx, count))]
        toggle_chain(trees, accent_ids(count), accent_flags(idx, count)) && trees[0] == o
            && trees[count as int] == n
}

/// A theme change leaves exactly the radio of the new mode checked among the
/// theme radios and changes nothing else in the menu.
pub proof fn lemma_theme_update(
    o: MenuItem,
    n: MenuItem,
    mode: ThemeMode,
    tf: Seq<bool>,
    af: Seq<bool>,
    names: Seq<Seq<char>>,
)
    requires
        menu_shape(o, tf, af, names),
        theme_updated(o, n, mode),
    ensures
        menu_shape(n, theme_flags(mode), af, names),
{
    let trees = choose|trees: Seq<MenuItem>|
        #![trigger toggle_chain(trees, theme_ids(), theme_flags(mode))]
        toggle_chain(trees, theme_ids(), theme_flags(mode)) && trees[0] == o && trees[3] == n;
    let f = theme_flags(mode);
    let ids = theme_ids();
    assert(toggle_step(trees[0], trees[1], ids[0], f[0]));
    lemma_toggle_theme(trees[0], trees[1], tf, af, names, 0, f[0]);
    let tf1 = tf.update(0, f[0]);
    assert(toggle_step(trees[1], trees[2], ids[1], f[1]));
    lemma_toggle_theme(trees[1], trees[2], tf1, af, names, 1, f[1]);
    let tf2 = tf1.update(1, f[1]);
    assert(toggle_step(trees[2], trees[3], ids[2], f[2]));
    lemma_toggle_theme(trees[2], trees[3], tf2, af, names, 2, f[2]);
    assert(tf2.update(2, f[2]) =~= f);
}

/// The accent flags after the first `j` radios were set for preset `idx`.
spec fn accent_flags_partly(af: Seq<bool>, idx: usize, j: int) -> Seq<bool> {
    Seq::new(af.len(), |i: int| if i < j { i == idx } else { af[i] })
}

proof fn lemma_accent_chain(
    trees: Seq<MenuItem>,
    idx: usize,
    count: nat,
    tf: Seq<bool>,
    af: Seq<bool>,
    names: Seq<Seq<char>>,
    j: int,
)
    requires
        toggle_chain(trees, accent_ids(count), accent_flags(idx, count)),
        count == names.len(),
        0 <= j <= count,
        menu_shape(trees[0], tf, af, names),
    ensures
        menu_shape(trees[j], tf, accent_flags_partly(af, idx, j), names),
    decreases j,
{
    if j == 0 {
        assert(accent_flags_partly(af, idx, 0) =~= af);
    } else {
        lemma_accent_chain(trees, idx, count, tf, af, names, j - 1);
        let ids = accent_ids(count);
        let prev = accent_flags_partly(af, idx, j - 1);
        assert(toggle_step(trees[j - 1], trees[j], ids[j - 1], accent_flags(idx, count)[j - 1]));
        lemma_toggle_accent(trees[j - 1], trees[j], tf, prev, names, j - 1, j - 1 == idx);
        assert(prev.update(j - 1, j - 1 == idx) =~= accent_flags_partly(af, idx, j));
    }
}

/// Selecting accent preset `idx` (counting all presets) leaves exactly radio
/// `idx` checked among the accent radios and changes nothing else in the menu.
pub proof fn lemma_accent_update(
    o: MenuItem,
    n: MenuItem,
    idx: usize,
    tf: Seq<bool>,
    af: Seq<bool>,
    names: Seq<Seq<char>>,
)
    requires
        menu_shape(o, tf, af, names),
        accent_updated(o, n, idx, names.len()),
    ensures
        menu_shape(n, tf, accent_flags(idx, names.len()), names),
{
    let count = names.len();
    let trees = choose|trees: Seq<MenuItem>|
        #![trigger toggle_chain(trees, accent_ids(count), accent_flags(idx, count))]
        toggle_chain(trees, accent_ids(count), accent_flags(idx, count)) && trees[0] == o
            && trees[count as int] == n;
    lemma_accent_chain(trees, idx, count, tf, af, names, count as int);
    assert(accent_flags_partly(af, idx, count as int) =~= accent_flags(idx, count));
}

/// What the DBusMenu service holds: the menu tree, whose check states change,
/// and the revision that `GetLayout` reports (bumped on every change).
pub struct DBusMenuState {
    pub tree: MenuItem,
    pub revision: u32,
}

impl DBusMenuState {
    /// The initial state: the full menu with the radios of `mode` and of accent
    /// preset `accent_idx` checked, at revision 1.
    pub fn new(mode: ThemeMode, accent_idx: usize, accent_names: &[&'static str]) -> (r: DBusMenuState)
        requires
            accent_names@.len() <= MAX_ACCENTS,
        ensures
            menu_shape(r.tree, theme_flags(mode), accent_flags(accent_idx, accent_names@.len()), names_view(accent_names@)),
            r.revision == 1,
    {
        DBusMenuState { tree: build(mode, accent_idx, accent_names), revision: 1 }
    }

    /// Check the theme radio of `mode` and uncheck the other two; bump the revision.
    pub fn update_theme_mode(&mut self, mode: ThemeMode)
        ensures
            theme_updated(old(self).tree, final(self).tree, mode),
            final(self).revision == old(self).revision.wrapping_add(1),
    {
        let target = theme_mode_id(mode);
        let ids = theme_all_ids();
        let ghost mut trees: Seq<MenuItem> = seq![self.tree];
        let mut k: usize = 0;
        while k < 3
            invariant
                0 <= k <= 3,
                ids@ == theme_ids(),
                target == theme_id(mode),
                trees.len() == k + 1,
                trees[0] == old(self).tree,
                trees[k as int] == self.tree,
                self.revision == old(self).revision,
                forall|j: int| #![trigger theme_ids()[j]] 0 <= j < k ==>
                    toggle_step(trees[j], trees[j + 1], theme_ids()[j], theme_flags(mode)[j]),
            decreases 3 - k,
        {
            let id = ids[k];
            let ghost before = self.tree;
            let _found = self.tree.set_toggle_state(id, id == target);
            proof {
                assert((id == target) == theme_flags(mode)[k as int]);
                trees = trees.push(self.tree);
                assert(toggle_step(trees[k as int], trees[k + 1], theme_ids()[k as int], theme_flags(mode)[k as int]));
            }
            k = k + 1;
        }
        proof {
            assert(toggle_chain(trees, theme_ids(), theme_flags(mode)));
        }
        self.revision = self.revision.wrapping_add(1);
    }

    /// Check accent radio `idx` and uncheck the others among the first
    /// `accent_count`; bump the revision.
    pub fn update_accent(&mut self, idx: usize, accent_count: usize)
        requires
            accent_count <= MAX_ACCENTS,
        ensures
            accent_updated(old(self).tree, final(self).tree, idx, accent_count as nat),
            final(self).revision == old(self).revision.wrapping_add(1),
    {
        let ghost mut trees: Seq<MenuItem> = seq![self.tree];
        let ghost ids = accent_ids(accent_count as nat);
        let ghost flags = accent_flags(idx, accent_count as nat);
        let mut i: usize = 0;
        while i < accent_count
            invariant
                0 <= i <= accent_count <= MAX_ACCENTS,
                ids == accent_ids(accent_count as nat),
                flags == accent_flags(idx, accent_count as nat),
                trees.len() == i + 1,
                trees[0] == old(self).tree,
                trees[i as int] == self.tree,
                self.revision == old(self).revision,
                forall|j: int| #![trigger ids[j]] 0 <= j < i ==>
                    toggle_step(trees[j], trees[j + 1], ids[j], flags[j]),
            decreases accent_count - i,
        {
            let id = ID_ACCENT_BASE + i as i32;
            let _found = self.tree.set_toggle_state(id, i == idx);
            proof {
                trees = trees.push(self.tree);
                assert(toggle_step(trees[i as int], trees[i + 1], ids[i as int], flags[i as int]));
            }
            i = i + 1;
        }
        proof {
            assert(toggle_chain(trees, ids, flags));
        }
        self.revision = self.revision.wrapping_add(1);
    }
}

/// The node a request for `id` is about: the node with that id, or the root
/// when there is none.
pub open spec fn node_or_root(tree: MenuItem, id: i32) -> MenuItem {
    match find_spec(tree, id) {
        Some(x) => x,
        None => tree,
    }
}

/// Mathematical form of an answer to `GetGroupProperties`.
pub open spec fn group_view(v: Seq<(i32, Vec<(String, PropValue)>)>) -> Seq<(i32, Seq<(Seq<char>, PropSpec)>)> {
    v.map_values(|e: (i32, Vec<(String, PropValue)>)| (e.0, props_view(e.1@)))
}

/// For each id in order that names a node: the id and the node's properties.
pub open spec fn group_spec(tree: MenuItem, ids: Seq<i32>, filter: Seq<Seq<char>>) -> Seq<(i32, Seq<(Seq<char>, PropSpec)>)>
    decreases ids.len(),
{
    if ids.len() == 0 {
        seq![]
    } else {
        group_spec(tree, ids.drop_last(), filter) + match find_spec(tree, ids.last()) {
            Some(x) => seq![(ids.last(), props_spec(x, filter))],
            None => seq![],
        }
    }
}

/// The value of property `name` of node `id`: the empty string when the node
/// or the property is absent.
pub open spec fn property_spec(tree: MenuItem, id: i32, name: Seq<char>) -> PropSpec {
    match find_spec(tree, id) {
        Some(x) => {
            let ps = props_spec(x, seq![name]);
            if ps.len() > 0 {
                ps[0].1
            } else {
                PropSpec::Str(seq![])
            }
        },
        None => PropSpec::Str(seq![]),
    }
}

/// The command of a menu event: only `clicked` events on items with a command have one.
pub open spec fn event_command(id: i32, event_id: Seq<char>, accent_count: nat) -> Option<MenuCommand> {
    if event_id == "clicked"@ {
        command_of(id, accent_count)
    } else {
        None
    }
}

/// The commands of a batch of events, in order.
pub open spec fn events_commands(events: Seq<(i32, String)>, accent_count: nat) -> Seq<MenuCommand>
    decreases events.len(),
{
    if events.len() == 0 {
        seq![]
    } else {
        events_commands(events.drop_last(), accent_count) + match event_command(events.last().0, events.last().1@, accent_count) {
            Some(c) => seq![c],
            None => seq![],
        }
    }
}

impl DBusMenuState {
    /// `GetLayout`: the revision and the layout of node `parent_id` (the root
    /// when no node has that id).
    pub fn layout(&self, parent_id: i32, depth: i32, filter: &[String]) -> (r: (u32, LayoutItem))
        ensures
            r.0 == self.revision,
            is_layout(r.1, node_or_root(self.tree, parent_id), depth as int, filter_view(filter@)),
    {
        let node = match self.tree.find(parent_id) {
            Some(n) => n,
            None => &self.tree,
        };
        (self.revision, node.to_layout(depth, filter))
    }

    /// `GetGroupProperties`: the properties of each listed id that names a node.
    pub fn group_properties(&self, ids: &[i32], filter: &[String]) -> (r: Vec<(i32, Vec<(String, PropValue)>)>)
        ensures
            group_view(r@) == group_spec(self.tree, ids@, filter_view(filter@)),
    {
        let ghost fv = filter_view(filter@);
        let mut out: Vec<(i32, Vec<(String, PropValue)>)> = Vec::new();
        let mut i: usize = 0;
        while i < ids.len()
            invariant
                0 <= i <= ids@.len(),
                fv == filter_view(filter@),
                group_view(out@) == group_spec(self.tree, ids@.take(i as int), fv),
            decreases ids.len() - i,
        {
            proof {
                assert(ids@.take(i + 1).drop_last() =~= ids@.take(i as int));
            }
            let id = ids[i];
            match self.tree.find(id) {
                Some(node) => {
                    let props = node.properties(filter);
                    let ghost before = out@;
                    out.push((id, props));
                    assert(group_view(out@) =~= group_view(before) + seq![(id, props_spec(*node, fv))]);
                },
                None => {
                    assert(group_spec(self.tree, ids@.take(i + 1), fv) =~= group_spec(self.tree, ids@.take(i as int), fv));
                },
            }
            i = i + 1;
        }
        assert(ids@.take(i as int) =~= ids@);
        out
    }

    /// `GetProperty`: property `name` of node `id`, the empty string when absent.
    pub fn property(&self, id: i32, name: String) -> (r: PropValue)
        ensures
            r@ == property_spec(self.tree, id, name@),
    {
        let ghost n = name@;
        match self.tree.find(id) {
            Some(node) => {
                let filter = vec![name];
                assert(filter_view(filter@) =~= seq![n]);
                let mut props = node.properties(filter.as_slice());
                if props.len() > 0 {
                    let ghost ps = props@;
                    let (_key, value) = props.remove(0);
                    assert(props_view(ps)[0].1 == value@);
                    value
                } else {
                    PropValue::Str(String::new())
                }
            },
            None => PropValue::Str(String::new()),
        }
    }
}

/// `Event`: the command a menu event asks for; only `clicked` events on items
/// with a command give one.
pub fn event_command_of(id: i32, event_id: &str, accent_count: usize) -> (r: Option<MenuCommand>)
    requires
        accent_count <= MAX_ACCENTS,
    ensures
        r == event_command(id, event_id@, accent_count as nat),
{
    if str_eq(event_id, "clicked") {
        id_to_command(id, accent_count)
    } else {
        None
    }
}

/// `EventGroup`: the commands of a batch of events, in order.
pub fn event_group_commands(events: &[(i32, String)], accent_count: usize) -> (r: Vec<MenuCommand>)
    requires
        accent_count <= MAX_ACCENTS,
    ensures
        r@ == events_commands(events@, accent_count as nat),
{
    let mut out: Vec<MenuCommand> = Vec::new();
    let mut i: usize = 0;
    while i < events.len()
        invariant
            0 <= i <= events@.len(),
            accent_count <= MAX_ACCENTS,
            out@ == events_commands(events@.take(i as int), accent_count as nat),
        decreases events.len() - i,
    {
        proof {
            assert(events@.take(i + 1).drop_last() =~= events@.take(i as int));
        }
        let c = event_command_of(events[i].0, events[i].1.as_str(), accent_count);
        match c {
            Some(cmd) => {
                out.push(cmd);
            },
            None => {},
        }
        proof {
            assert(out@ =~= events_commands(events@.take(i + 1), accent_count as nat));
        }
        i = i + 1;
    }
    assert(events@.take(i as int) =~= events@);
    out
}

/// What the application tells the menu service.
#[derive(Debug, Clone, Copy, PartialEq, Eq, Structural)]
pub enum BackendNotify {
    ThemeChanged(ThemeMode),
    AccentChanged(usize),
}

/// The `toggle-state` updates announced after a theme change: each theme
/// radio, in menu order, with 1 for the radio of `mode` and 0 for the others.
pub fn theme_signal(mode: ThemeMode) -> (r: Vec<(i32, i32)>)
    ensures
        r@.len() == 3,
        forall|k: int| 0 <= k < 3 ==> (#[trigger] r@[k]).0 == theme_ids()[k]
            && r@[k].1 == (if theme_ids()[k] == theme_id(mode) { 1i32 } else { 0i32 }),
{
    let target = theme_mode_id(mode);
    let ids = theme_all_ids();
    let mut out: Vec<(i32, i32)> = Vec::new();
    let mut k: usize = 0;
    while k < 3
        invariant
            0 <= k <= 3,
            ids@ == theme_ids(),
            target == theme_id(mode),
            out@.len() == k,
            forall|j: int| 0 <= j < k ==> (#[trigger] out@[j]).0 == theme_ids()[j]
                && out@[j].1 == (if theme_ids()[j] == theme_id(mode) { 1i32 } else { 0i32 }),
        decreases 3 - k,
    {
        let id = ids[k];
        out.push((id, if id == target { 1 } else { 0 }));
        k = k + 1;
    }
    out
}

/// The `toggle-state` updates announced after selecting accent preset `idx`:
/// each of the first `accent_count` accent radios with 1 for radio `idx`, 0 otherwise.
pub fn accent_signal(idx: usize, accent_count: usize) -> (r: Vec<(i32, i32)>)
    requires
        accent_count <= MAX_ACCENTS,
    ensures
        r@.len() == accent_count,
        forall|k: int| 0 <= k < accent_count ==> (#[trigger] r@[k]).0 == ID_ACCENT_BASE + k
            && r@[k].1 == (if k == idx { 1i32 } else { 0i32 }),
{
    let mut out: Vec<(i32, i32)> = Vec::new();
    let mut i: usize = 0;
    while i < accent_count
        invariant
            0 <= i <= accent_count <= MAX_ACCENTS,
            out@.len() == i,
            forall|k: int| 0 <= k < i ==> (#[trigger] out@[k]).0 == ID_ACCENT_BASE + k
                && out@[k].1 == (if k == idx { 1i32 } else { 0i32 }),
        decreases accent_count - i,
    {
        out.push((ID_ACCENT_BASE + i as i32, if i == idx { 1 } else { 0 }));
        i = i + 1;
    }
    out
}

impl DBusMenuState {
    /// Apply a notification from the application: a theme or accent change.
    pub fn apply(&mut self, notify: BackendNotify, accent_count: usize)
        requires
            accent_count <= MAX_ACCENTS,
        ensures
            match notify {
                BackendNotify::ThemeChanged(mode) => theme_updated(old(self).tree, final(self).tree, mode),
                BackendNotify::AccentChanged(idx) => accent_updated(old(self).tree, final(self).tree, idx, accent_count as nat),
            },
            final(self).revision == old(self).revision.wrapping_add(1),
    {
        match notify {
            BackendNotify::ThemeChanged(mode) => self.update_theme_mode(mode),
            BackendNotify::AccentChanged(idx) => self.update_accent(idx, accent_count),
        }
    }
}

} // verus!
