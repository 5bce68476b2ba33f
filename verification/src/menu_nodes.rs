//! The nodes of a menu tree in depth-first pre-order, how lookup by id
//! relates to them, and what they are in the built menu: ids strictly
//! increasing (so distinct), the checked radios, and the items with commands.

use vstd::prelude::*;
use crate::menu::{MenuItem, ToggleType, find_spec, find_in, lemma_found_has_id};
use crate::menu_state::theme_ids;
use crate::tree::{menu_shape, menu_tree, theme_flags, accent_flags, theme_id, command_of, ID_ACCENT_BASE};
use crate::menu::MenuCommand;
use crate::nav::section_title;

verus! {

/// The nodes of a tree, the root first, then each child's nodes in order.
pub open spec fn nodes_of(m: MenuItem) -> Seq<MenuItem>
    decreases m, 1int,
{
    seq![m] + forest_nodes(m.children@)
}

/// The nodes of a list of trees, in order.
pub open spec fn forest_nodes(s: Seq<MenuItem>) -> Seq<MenuItem>
    decreases s, 0int,
{
    if s.len() == 0 {
        seq![]
    } else {
        forest_nodes(s.drop_last()) + nodes_of(s.last())
    }
}

/// Membership in a concatenation.
pub broadcast proof fn lemma_contains_concat(a: Seq<MenuItem>, b: Seq<MenuItem>, y: MenuItem)
    ensures
        #[trigger] (a + b).contains(y) <==> a.contains(y) || b.contains(y),
{
    if (a + b).contains(y) {
        let i = choose|i: int| 0 <= i < (a + b).len() && (a + b)[i] == y;
        if i < a.len() {
            assert(a[i] == y);
        } else {
            assert(b[i - a.len()] == y);
        }
    }
    if a.contains(y) {
        let i = choose|i: int| 0 <= i < a.len() && a[i] == y;
        assert((a + b)[i] == y);
    }
    if b.contains(y) {
        let i = choose|i: int| 0 <= i < b.len() && b[i] == y;
        assert((a + b)[a.len() + i] == y);
    }
}

/// Membership in a one-element list.
pub broadcast proof fn lemma_contains_single(x: MenuItem, y: MenuItem)
    ensures
        #[trigger] seq![x].contains(y) <==> x == y,
{
    if x == y {
        assert(seq![x][0] == y);
    }
}

/// A node found by id is one of the tree's nodes.
pub proof fn lemma_found_is_node(m: MenuItem, x: i32)
    ensures
        find_spec(m, x) matches Some(y) ==> nodes_of(m).contains(y),
    decreases m, 1int,
{
    broadcast use lemma_contains_concat, lemma_contains_single;
    lemma_found_in_is_node(m.children@, x);
}

/// A node found by id in a list of trees is one of their nodes.
pub proof fn lemma_found_in_is_node(s: Seq<MenuItem>, x: i32)
    ensures
        find_in(s, x) matches Some(y) ==> forest_nodes(s).contains(y),
    decreases s, 0int,
{
    broadcast use lemma_contains_concat;
    if s.len() > 0 {
        lemma_found_in_is_node(s.drop_last(), x);
        lemma_found_is_node(s.last(), x);
    }
}

/// Every node of a tree is found by its id (perhaps as another node with that id).
pub proof fn lemma_node_is_found(m: MenuItem, y: MenuItem)
    requires
        nodes_of(m).contains(y),
    ensures
        find_spec(m, y.id) is Some,
    decreases m, 1int,
{
    broadcast use lemma_contains_concat, lemma_contains_single;
    if m.id != y.id {
        lemma_forest_node_found(m.children@, y);
    }
}

/// Every node of a list of trees is found by its id in the list.
pub proof fn lemma_forest_node_found(s: Seq<MenuItem>, y: MenuItem)
    requires
        forest_nodes(s).contains(y),
    ensures
        find_in(s, y.id) is Some,
    decreases s, 0int,
{
    broadcast use lemma_contains_concat;
    if s.len() > 0 {
        if forest_nodes(s.drop_last()).contains(y) {
            lemma_forest_node_found(s.drop_last(), y);
        } else {
            lemma_node_is_found(s.last(), y);
        }
    }
}

/// Ids strictly increase along `s`.
pub open spec fn ids_increasing(s: Seq<MenuItem>) -> bool {
    forall|i: int, j: int| 0 <= i < j < s.len() ==> #[trigger] s[i].id < #[trigger] s[j].id
}

/// Ids strictly increase along `s` and lie in `lo ..= hi`.
pub open spec fn id_block(s: Seq<MenuItem>, lo: int, hi: int) -> bool {
    &&& ids_increasing(s)
    &&& forall|i: int| 0 <= i < s.len() ==> lo <= #[trigger] s[i].id <= hi
}

proof fn lemma_block_concat(a: Seq<MenuItem>, b: Seq<MenuItem>, lo: int, mid1: int, mid2: int, hi: int)
    requires
        id_block(a, lo, mid1),
        id_block(b, mid2, hi),
        mid1 < mid2,
        lo <= mid2,
        mid1 <= hi,
    ensures
        id_block(a + b, lo, hi),
{
    let c = a + b;
    assert forall|i: int, j: int| 0 <= i < j < c.len() implies #[trigger] c[i].id < #[trigger] c[j].id by {
        if j < a.len() {
            assert(c[i] == a[i] && c[j] == a[j]);
        } else if i < a.len() {
            assert(c[i] == a[i] && c[j] == b[j - a.len()]);
        } else {
            assert(c[i] == b[i - a.len()] && c[j] == b[j - a.len()]);
        }
    }
    assert forall|i: int| 0 <= i < c.len() implies lo <= #[trigger] c[i].id <= hi by {
        if i < a.len() {
            assert(c[i] == a[i]);
        } else {
            assert(c[i] == b[i - a.len()]);
        }
    }
}

/// Among nodes with strictly increasing ids, a node is the only one with its id.
proof fn lemma_unique_id(s: Seq<MenuItem>, y: MenuItem, z: MenuItem)
    requires
        ids_increasing(s),
        s.contains(y),
        s.contains(z),
        y.id == z.id,
    ensures
        y == z,
{
    let i = choose|i: int| 0 <= i < s.len() && s[i] == y;
    let j = choose|j: int| 0 <= j < s.len() && s[j] == z;
    if i < j {
        assert(s[i].id < s[j].id);
    } else if j < i {
        assert(s[j].id < s[i].id);
    }
}

/// In a tree whose nodes have strictly increasing ids, looking up the id of a
/// node finds that very node.
pub proof fn lemma_find_member(m: MenuItem, y: MenuItem)
    requires
        ids_increasing(nodes_of(m)),
        nodes_of(m).contains(y),
    ensures
        find_spec(m, y.id) == Some(y),
{
    lemma_node_is_found(m, y);
    lemma_found_is_node(m, y.id);
    lemma_found_has_id(m, y.id);
    let z = find_spec(m, y.id)->0;
    lemma_unique_id(nodes_of(m), y, z);
}

/// A node without children is its own only node.
proof fn lemma_leaf_nodes(l: MenuItem)
    requires
        l.children@.len() == 0,
    ensures
        nodes_of(l) == seq![l],
{
    assert(forest_nodes(l.children@) =~= Seq::<MenuItem>::empty());
    assert(seq![l] + Seq::<MenuItem>::empty() =~= seq![l]);
}

/// A list of leaves is its own list of nodes.
proof fn lemma_leaves_nodes(s: Seq<MenuItem>)
    requires
        forall|k: int| 0 <= k < s.len() ==> (#[trigger] s[k]).children@.len() == 0,
    ensures
        forest_nodes(s) == s,
    decreases s.len(),
{
    if s.len() > 0 {
        lemma_leaves_nodes(s.drop_last());
        lemma_leaf_nodes(s.last());
        assert(s.drop_last() + seq![s.last()] =~= s);
    }
}

/// The nodes of a list of four trees.
proof fn lemma_four_nodes(s: Seq<MenuItem>)
    requires
        s.len() == 4,
    ensures
        forest_nodes(s) == nodes_of(s[0]) + nodes_of(s[1]) + nodes_of(s[2]) + nodes_of(s[3]),
{
    let s3 = s.drop_last();
    let s2 = s3.drop_last();
    let s1 = s2.drop_last();
    let s0 = s1.drop_last();
    assert(s0.len() == 0);
    assert(forest_nodes(s0) =~= Seq::<MenuItem>::empty());
    assert(forest_nodes(s1) =~= nodes_of(s[0]));
    assert(forest_nodes(s2) == forest_nodes(s1) + nodes_of(s[1]));
    assert(forest_nodes(s3) == forest_nodes(s2) + nodes_of(s[2]));
}

/// Leaves whose ids run on from `first`, one by one.
pub open spec fn consecutive_leaves(s: Seq<MenuItem>, first: int) -> bool {
    forall|k: int| 0 <= k < s.len() ==> (#[trigger] s[k]).children@.len() == 0 && s[k].id == first + k
}

proof fn lemma_consecutive_block(s: Seq<MenuItem>, first: int)
    requires
        consecutive_leaves(s, first),
    ensures
        id_block(s, first, first + s.len() - 1),
{
}

/// A submenu of leaves numbered on from its own id: its nodes are itself and
/// its children, a block of ids.
proof fn lemma_submenu_of_leaves(m: MenuItem)
    requires
        consecutive_leaves(m.children@, m.id + 1),
    ensures
        nodes_of(m) == seq![m] + m.children@,
        id_block(nodes_of(m), m.id as int, m.id + m.children@.len()),
{
    lemma_leaves_nodes(m.children@);
    lemma_consecutive_block(m.children@, m.id + 1);
    lemma_block_concat(seq![m], m.children@, m.id as int, m.id as int, m.id + 1, m.id + m.children@.len());
}

/// The nodes of a menu of the built shape, in order: the root, the File menu
/// and its items, the View menu, its two first items, the theme submenu and
/// its radios, the accent submenu and its radios, then the Go and Help menus
/// with their items. Their ids strictly increase.
proof fn lemma_shape_nodes(m: MenuItem, tf: Seq<bool>, af: Seq<bool>, names: Seq<Seq<char>>)
    requires
        menu_shape(m, tf, af, names),
    ensures
        ({
            let f = m.children@[0];
            let v = m.children@[1];
            let g = m.children@[2];
            let h = m.children@[3];
            let t = v.children@[2];
            let a = v.children@[3];
            nodes_of(m) == seq![m] + (seq![f] + f.children@)
                + (seq![v] + seq![v.children@[0]] + seq![v.children@[1]] + (seq![t] + t.children@) + (seq![a] + a.children@))
                + (seq![g] + g.children@) + (seq![h] + h.children@)
        }),
        ids_increasing(nodes_of(m)),
{
    let f = m.children@[0];
    let v = m.children@[1];
    let g = m.children@[2];
    let h = m.children@[3];
    let t = v.children@[2];
    let a = v.children@[3];
    let n: int = names.len() as int;
    assert(consecutive_leaves(f.children@, f.id + 1)) by {
        assert forall|k: int| 0 <= k < f.children@.len() implies (#[trigger] f.children@[k]).children@.len() == 0
            && f.children@[k].id == f.id + 1 + k by {
            if k == 0 {} else if k == 1 {} else if k == 2 {} else {}
        }
    }
    assert(consecutive_leaves(t.children@, t.id + 1)) by {
        assert forall|k: int| 0 <= k < t.children@.len() implies (#[trigger] t.children@[k]).children@.len() == 0
            && t.children@[k].id == t.id + 1 + k by {
            if k == 0 {} else if k == 1 {} else {}
        }
    }
    assert(consecutive_leaves(a.children@, a.id + 1)) by {
        assert forall|k: int| 0 <= k < a.children@.len() implies (#[trigger] a.children@[k]).children@.len() == 0
            && a.children@[k].id == a.id + 1 + k by {
            assert(crate::tree::is_radio(a.children@[k], (ID_ACCENT_BASE + k) as i32, names[k], af[k]));
        }
    }
    assert(consecutive_leaves(g.children@, g.id + 1)) by {
        assert forall|k: int| 0 <= k < g.children@.len() implies (#[trigger] g.children@[k]).children@.len() == 0
            && g.children@[k].id == g.id + 1 + k by {
            if k == 0 {} else if k == 1 {} else if k == 2 {} else {}
        }
    }
    assert(consecutive_leaves(h.children@, h.id + 1)) by {
        assert forall|k: int| 0 <= k < h.children@.len() implies (#[trigger] h.children@[k]).children@.len() == 0
            && h.children@[k].id == h.id + 1 + k by {
            if k == 0 {} else if k == 1 {} else {}
        }
    }
    lemma_submenu_of_leaves(f);
    lemma_submenu_of_leaves(t);
    lemma_submenu_of_leaves(a);
    lemma_submenu_of_leaves(g);
    lemma_submenu_of_leaves(h);
    let v0 = v.children@[0];
    let v1 = v.children@[1];
    lemma_leaf_nodes(v0);
    lemma_leaf_nodes(v1);
    lemma_four_nodes(v.children@);
    lemma_four_nodes(m.children@);
    assert(nodes_of(v) =~= seq![v] + seq![v0] + seq![v1] + nodes_of(t) + nodes_of(a));
    assert(nodes_of(m) =~= seq![m] + nodes_of(f) + nodes_of(v) + nodes_of(g) + nodes_of(h));
    // the view menu: 300, 301, 302, 310..=313, 320..=320+n
    lemma_block_concat(seq![v], seq![v0], 300, 300, 301, 301);
    lemma_block_concat(seq![v] + seq![v0], seq![v1], 300, 301, 302, 302);
    lemma_block_concat(seq![v] + seq![v0] + seq![v1], nodes_of(t), 300, 302, 310, 313);
    lemma_block_concat(seq![v] + seq![v0] + seq![v1] + nodes_of(t), nodes_of(a), 300, 313, 320, 320 + n);
    // the whole menu: 0, 100..=104, 300..=399, 400..=404, 500..=503
    lemma_block_concat(seq![m], nodes_of(f), 0, 0, 100, 104);
    lemma_block_concat(seq![m] + nodes_of(f), nodes_of(v), 0, 104, 300, 320 + n);
    lemma_block_concat(seq![m] + nodes_of(f) + nodes_of(v), nodes_of(g), 0, 320 + n, 400, 404);
    lemma_block_concat(seq![m] + nodes_of(f) + nodes_of(v) + nodes_of(g), nodes_of(h), 0, 404, 500, 503);
}

/// A built menu has strictly increasing (so distinct) ids in pre-order; the
/// theme radio of the selected mode is the only checked theme radio, and
/// accent radio `idx` the only checked accent radio (none when `idx` is not
/// a preset), each found by its id.
pub proof fn lemma_built_menu_checks(m: MenuItem, mode: crate::menu::ThemeMode, idx: usize, names: Seq<Seq<char>>)
    requires
        menu_tree(m, mode, idx, names),
    ensures
        ids_increasing(nodes_of(m)),
        forall|k: int| 0 <= k < 3 ==> ((#[trigger] find_spec(m, theme_ids()[k])) matches Some(x)
            && x.toggle_type == ToggleType::Radio && x.toggle_state == (theme_ids()[k] == theme_id(mode))),
        forall|i: int| 0 <= i < names.len() ==> ((#[trigger] find_spec(m, (ID_ACCENT_BASE + i) as i32)) matches Some(x)
            && x.toggle_type == ToggleType::Radio && x.toggle_state == (i == idx)),
{
    broadcast use lemma_contains_concat, lemma_contains_single;
    let tf = theme_flags(mode);
    let af = accent_flags(idx, names.len());
    lemma_shape_nodes(m, tf, af, names);
    let v = m.children@[1];
    let t = v.children@[2];
    let a = v.children@[3];
    assert forall|k: int| 0 <= k < 3 implies ((#[trigger] find_spec(m, theme_ids()[k])) matches Some(x)
        && x.toggle_type == ToggleType::Radio && x.toggle_state == (theme_ids()[k] == theme_id(mode))) by {
        let y = t.children@[k];
        assert(t.children@.contains(y));
        lemma_find_member(m, y);
        if k == 0 {} else if k == 1 {} else {}
    }
    assert forall|i: int| 0 <= i < names.len() implies ((#[trigger] find_spec(m, (ID_ACCENT_BASE + i) as i32)) matches Some(x)
        && x.toggle_type == ToggleType::Radio && x.toggle_state == (i == idx)) by {
        let y = a.children@[i];
        assert(a.children@.contains(y));
        assert(crate::tree::is_radio(y, (ID_ACCENT_BASE + i) as i32, names[i], af[i]));
        lemma_find_member(m, y);
    }
}

/// Looking `x` up finds an item that is neither a separator nor a submenu.
pub open spec fn leaf_item_found(m: MenuItem, x: i32) -> bool {
    find_spec(m, x) matches Some(y) && !y.is_separator && y.children@.len() == 0
}

/// In a built menu with at least one accent preset, an id has a command
/// exactly when it names an item that is neither a separator nor a submenu.
pub proof fn lemma_commands_are_leaves(m: MenuItem, mode: crate::menu::ThemeMode, idx: usize, names: Seq<Seq<char>>, x: i32)
    requires
        menu_tree(m, mode, idx, names),
        names.len() >= 1,
    ensures
        command_of(x, names.len()) is Some <==> leaf_item_found(m, x),
{
    broadcast use lemma_contains_concat, lemma_contains_single;
    let tf = theme_flags(mode);
    let af = accent_flags(idx, names.len());
    lemma_shape_nodes(m, tf, af, names);
    let f = m.children@[0];
    let v = m.children@[1];
    let g = m.children@[2];
    let h = m.children@[3];
    let t = v.children@[2];
    let a = v.children@[3];
    let n = names.len();
    if command_of(x, n) is Some {
        let y = if x == 101 {
            f.children@[0]
        } else if x == 102 {
            f.children@[1]
        } else if x == 104 {
            f.children@[3]
        } else if x == 301 {
            v.children@[0]
        } else if 311 <= x <= 313 {
            t.children@[x - 311]
        } else if 401 <= x <= 404 {
            g.children@[x - 401]
        } else if 501 <= x <= 503 {
            h.children@[x - 501]
        } else {
            a.children@[x - 321]
        };
        if x == 101 || x == 102 || x == 104 {
            assert(f.children@.contains(y));
        } else if x == 301 {
            assert(seq![v.children@[0]].contains(y));
        } else if 311 <= x <= 313 {
            assert(t.children@.contains(y));
        } else if 401 <= x <= 404 {
            assert(g.children@.contains(y));
        } else if 501 <= x <= 503 {
            assert(h.children@.contains(y));
        } else {
            assert(a.children@.contains(y));
            assert(crate::tree::is_radio(y, (ID_ACCENT_BASE + (x - 321)) as i32, names[x - 321], af[x - 321]));
        }
        if 311 <= x <= 313 {
            if x == 311 {} else if x == 312 {} else {}
        } else if 401 <= x <= 404 {
            if x == 401 {} else if x == 402 {} else if x == 403 {} else {}
        } else if 501 <= x <= 503 {
            if x == 501 {} else if x == 502 {} else {}
        }
        assert(y.id == x);
        lemma_find_member(m, y);
    }
    if leaf_item_found(m, x) {
        let y = find_spec(m, x)->0;
        lemma_found_is_node(m, x);
        lemma_found_has_id(m, x);
        if f.children@.contains(y) {
            let k = choose|k: int| 0 <= k < f.children@.len() && f.children@[k] == y;
            if k == 0 {} else if k == 1 {} else if k == 2 {} else {}
        } else if t.children@.contains(y) {
            let k = choose|k: int| 0 <= k < t.children@.len() && t.children@[k] == y;
            if k == 0 {} else if k == 1 {} else {}
        } else if a.children@.contains(y) {
            let k = choose|k: int| 0 <= k < a.children@.len() && a.children@[k] == y;
            assert(crate::tree::is_radio(y, (ID_ACCENT_BASE + k) as i32, names[k], af[k]));
        } else if g.children@.contains(y) {
            let k = choose|k: int| 0 <= k < g.children@.len() && g.children@[k] == y;
            if k == 0 {} else if k == 1 {} else if k == 2 {} else {}
        } else if h.children@.contains(y) {
            let k = choose|k: int| 0 <= k < h.children@.len() && h.children@[k] == y;
            if k == 0 {} else if k == 1 {} else {}
        }
    }
}


/// Clicking an item of the Go menu navigates to the section whose title the
/// item shows.
pub proof fn lemma_go_items_navigate(m: MenuItem, mode: crate::menu::ThemeMode, idx: usize, names: Seq<Seq<char>>, k: int)
    requires
        menu_tree(m, mode, idx, names),
        0 <= k < 4,
    ensures
        ({
            let item = m.children@[2].children@[k];
            command_of(item.id, names.len()) matches Some(MenuCommand::NavigateTo(sec)) && section_title(sec) == item.label@
        }),
{
    if k == 0 {} else if k == 1 {} else if k == 2 {} else {}
}

/// Clicking a theme radio selects the mode whose radio is checked when that
/// mode is current; clicking accent radio `i` selects accent `i`, whose radio
/// is checked when it is current.
pub proof fn lemma_radio_commands(m: MenuItem, mode: crate::menu::ThemeMode, idx: usize, names: Seq<Seq<char>>)
    requires
        menu_tree(m, mode, idx, names),
    ensures
        forall|k: int| 0 <= k < 3 ==> ({
            let item = #[trigger] m.children@[1].children@[2].children@[k];
            command_of(item.id, names.len()) matches Some(MenuCommand::SetThemeMode(mo))
                && (item.toggle_state <==> mo == mode)
        }),
        forall|i: int| 0 <= i < names.len() ==> ({
            let item = #[trigger] m.children@[1].children@[3].children@[i];
            command_of(item.id, names.len()) == Some(MenuCommand::SetAccent(i as usize))
                && (item.toggle_state <==> i == idx)
        }),
{
    let t = m.children@[1].children@[2];
    let a = m.children@[1].children@[3];
    assert forall|k: int| 0 <= k < 3 implies ({
        let item = #[trigger] m.children@[1].children@[2].children@[k];
        command_of(item.id, names.len()) matches Some(MenuCommand::SetThemeMode(mo))
            && (item.toggle_state <==> mo == mode)
    }) by {
        if k == 0 {} else if k == 1 {} else {}
    }
    assert forall|i: int| 0 <= i < names.len() implies ({
        let item = #[trigger] m.children@[1].children@[3].children@[i];
        command_of(item.id, names.len()) == Some(MenuCommand::SetAccent(i as usize))
            && (item.toggle_state <==> i == idx)
    }) by {
        assert(crate::tree::is_radio(a.children@[i], (ID_ACCENT_BASE + i) as i32, names[i], accent_flags(idx, names.len())[i]));
    }
}

} // verus!
