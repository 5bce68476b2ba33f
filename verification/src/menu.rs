//! Application menu model: menu commands, the menu tree published over
//! DBusMenu, stable item ids, and the property sets of items.

use vstd::prelude::*;
use crate::nav::Section;
use crate::text::{chars_of, str_eq, string_from_chars};

verus! {

/// Appearance mode.
#[derive(Debug, Clone, Copy, PartialEq, Eq, Structural)]
pub enum ThemeMode {
    System,
    Light,
    Dark,
}

/// What a click on a menu item asks the application to do.
#[derive(Debug, Clone, Copy, PartialEq, Eq, Structural)]
pub enum MenuCommand {
    OpenDownloadDir,
    ClearCache,
    Quit,
    ToggleSidebar,
    SetThemeMode(ThemeMode),
    SetAccent(usize),
    NavigateTo(Section),
    About,
    OpenLogDir,
    OpenHomepage,
}

/// What the application calls on the platform menu when a setting changes,
/// so that the menu's check marks follow.
pub trait MenuBackend {
    fn set_theme_mode(&self, mode: ThemeMode);

    fn set_accent(&self, idx: usize);
}

/// Toggle kind of an item (`toggle-type` in DBusMenu).
#[derive(Debug, Clone, Copy, PartialEq, Eq, Structural)]
pub enum ToggleType {
    Plain,
    Checkmark,
    Radio,
}

/// A node of the menu tree. A separator has `is_separator`; a submenu is a node with children.
pub struct MenuItem {
    pub id: i32,
    pub label: String,
    pub is_separator: bool,
    pub enabled: bool,
    pub visible: bool,
    pub toggle_type: ToggleType,
    /// Only meaningful when `toggle_type` is not `Plain`.
    pub toggle_state: bool,
    pub children: Vec<MenuItem>,
}

/// The first node with the given id in depth-first pre-order (the node itself first).
pub open spec fn find_spec(m: MenuItem, id: i32) -> Option<MenuItem>
    decreases m, 1int,
{
    if m.id == id {
        Some(m)
    } else {
        find_in(m.children@, id)
    }
}

/// The first node with the given id in a list of subtrees, searched in order.
pub open spec fn find_in(s: Seq<MenuItem>, id: i32) -> Option<MenuItem>
    decreases s, 0int,
{
    if s.len() == 0 {
        None
    } else {
        match find_in(s.drop_last(), id) {
            Some(x) => Some(x),
            None => find_spec(s.last(), id),
        }
    }
}

/// A node found by id carries that id.
pub proof fn lemma_found_has_id(m: MenuItem, id: i32)
    ensures
        find_spec(m, id) matches Some(x) ==> x.id == id,
    decreases m, 1int,
{
    if m.id != id {
        lemma_found_in_has_id(m.children@, id);
    }
}

/// A node found by id in a list of subtrees carries that id.
pub proof fn lemma_found_in_has_id(s: Seq<MenuItem>, id: i32)
    ensures
        find_in(s, id) matches Some(x) ==> x.id == id,
    decreases s, 0int,
{
    if s.len() > 0 {
        lemma_found_in_has_id(s.drop_last(), id);
        lemma_found_has_id(s.last(), id);
    }
}

pub(crate) proof fn lemma_find_in_step(s: Seq<MenuItem>, id: i32, i: int)
    requires
        0 <= i < s.len(),
    ensures
        find_in(s.take(i + 1), id) == match find_in(s.take(i), id) {
            Some(x) => Some(x),
            None => find_spec(s[i], id),
        },
{
    assert(s.take(i + 1).drop_last() =~= s.take(i));
    assert(s.take(i + 1).last() == s[i]);
}

impl MenuItem {
    /// A plain clickable item.
    pub fn standard(id: i32, label: &str) -> (r: MenuItem)
        ensures
            r.id == id,
            r.label@ == label@,
            !r.is_separator,
            r.enabled,
            r.visible,
            r.toggle_type == ToggleType::Plain,
            !r.toggle_state,
            r.children@.len() == 0,
    {
        MenuItem {
            id,
            label: label.to_string(),
            is_separator: false,
            enabled: true,
            visible: true,
            toggle_type: ToggleType::Plain,
            toggle_state: false,
            children: Vec::new(),
        }
    }

    /// A separator line.
    pub fn separator(id: i32) -> (r: MenuItem)
        ensures
            r.id == id,
            r.label@.len() == 0,
            r.is_separator,
            r.enabled,
            r.visible,
            r.toggle_type == ToggleType::Plain,
            !r.toggle_state,
            r.children@.len() == 0,
    {
        MenuItem {
            id,
            label: String::new(),
            is_separator: true,
            enabled: true,
            visible: true,
            toggle_type: ToggleType::Plain,
            toggle_state: false,
            children: Vec::new(),
        }
    }

    /// A submenu head (children are pushed afterwards).
    pub fn submenu(id: i32, label: &str) -> (r: MenuItem)
        ensures
            r.id == id,
            r.label@ == label@,
            !r.is_separator,
            r.enabled,
            r.visible,
            r.toggle_type == ToggleType::Plain,
            !r.toggle_state,
            r.children@.len() == 0,
    {
        MenuItem {
            id,
            label: label.to_string(),
            is_separator: false,
            enabled: true,
            visible: true,
            toggle_type: ToggleType::Plain,
            toggle_state: false,
            children: Vec::new(),
        }
    }

    /// A radio item, checked or not.
    pub fn radio(id: i32, label: &str, checked: bool) -> (r: MenuItem)
        ensures
            r.id == id,
            r.label@ == label@,
            !r.is_separator,
            r.enabled,
            r.visible,
            r.toggle_type == ToggleType::Radio,
            r.toggle_state == checked,
            r.children@.len() == 0,
    {
        MenuItem {
            id,
            label: label.to_string(),
            is_separator: false,
            enabled: true,
            visible: true,
            toggle_type: ToggleType::Radio,
            toggle_state: checked,
            children: Vec::new(),
        }
    }

    /// Append a child.
    pub fn push_child(&mut self, child: MenuItem)
        ensures
            final(self).id == old(self).id,
            final(self).label == old(self).label,
            final(self).is_separator == old(self).is_separator,
            final(self).enabled == old(self).enabled,
            final(self).visible == old(self).visible,
            final(self).toggle_type == old(self).toggle_type,
            final(self).toggle_state == old(self).toggle_state,
            final(self).children@ == old(self).children@.push(child),
    {
        self.children.push(child);
    }

    /// Depth-first search for the node with the given id; the node itself is tried first.
    pub fn find(&self, id: i32) -> (r: Option<&MenuItem>)
        ensures
            match find_spec(*self, id) {
                Some(x) => r matches Some(y) && *y == x,
                None => r is None,
            },
        decreases self,
    {
        if self.id == id {
            return Some(self);
        }
        let mut i: usize = 0;
        assert(self.children@.take(0) =~= seq![]);
        while i < self.children.len()
            invariant
                self.id != id,
                0 <= i <= self.children@.len(),
                find_in(self.children@.take(i as int), id) is None,
            decreases self.children.len() - i,
        {
            proof { lemma_find_in_step(self.children@, id, i as int); }
            match self.children[i].find(id) {
                Some(f) => {
                    proof { lemma_find_in_prefix_some(self.children@, id, (i + 1) as int); }
                    return Some(f);
                },
                None => {},
            }
            i = i + 1;
        }
        assert(self.children@.take(i as int) =~= self.children@);
        None
    }
}

/// Once a prefix of the list has a match, the whole list has the same one.
pub(crate) proof fn lemma_find_in_prefix_some(s: Seq<MenuItem>, id: i32, i: int)
    requires
        0 <= i <= s.len(),
        find_in(s.take(i), id) is Some,
    ensures
        find_in(s, id) == find_in(s.take(i), id),
    decreases s.len() - i,
{
    if i < s.len() {
        lemma_find_in_step(s, id, i);
        lemma_find_in_prefix_some(s, id, i + 1);
    } else {
        assert(s.take(i) =~= s);
    }
}


/// A DBusMenu property value.
#[derive(Debug, PartialEq, Eq)]
pub enum PropValue {
    Str(String),
    Bool(bool),
    Int(i32),
}

/// Mathematical form of a property value.
pub enum PropSpec {
    Str(Seq<char>),
    Bool(bool),
    Int(i32),
}

impl View for PropValue {
    type V = PropSpec;

    open spec fn view(&self) -> PropSpec {
        match self {
            PropValue::Str(s) => PropSpec::Str(s@),
            PropValue::Bool(b) => PropSpec::Bool(*b),
            PropValue::Int(i) => PropSpec::Int(*i),
        }
    }
}

/// Mathematical form of a property list.
pub open spec fn props_view(v: Seq<(String, PropValue)>) -> Seq<(Seq<char>, PropSpec)> {
    v.map_values(|p: (String, PropValue)| (p.0@, p.1@))
}

/// A property is wanted when the filter is empty or names it.
pub open spec fn wanted(filter: Seq<Seq<char>>, key: Seq<char>) -> bool {
    filter.len() == 0 || filter.contains(key)
}

/// The property `(key, value)` when `c` holds, nothing otherwise.
pub open spec fn prop_if(c: bool, key: Seq<char>, value: PropSpec) -> Seq<(Seq<char>, PropSpec)> {
    if c {
        seq![(key, value)]
    } else {
        seq![]
    }
}

/// A label with each `_` doubled (DBusMenu reads a single `_` as a mnemonic marker).
pub open spec fn escape_underscores(s: Seq<char>) -> Seq<char>
    decreases s.len(),
{
    if s.len() == 0 {
        seq![]
    } else {
        escape_underscores(s.drop_last()) + if s.last() == '_' {
            seq!['_', '_']
        } else {
            seq![s.last()]
        }
    }
}

pub open spec fn state_int(b: bool) -> i32 {
    if b {
        1
    } else {
        0
    }
}

/// The properties of a node sent over DBusMenu, restricted to `filter` when it is non-empty.
pub open spec fn props_spec(m: MenuItem, filter: Seq<Seq<char>>) -> Seq<(Seq<char>, PropSpec)> {
    main_props(m, filter)
        + prop_if(wanted(filter, "enabled"@) && !m.enabled, "enabled"@, PropSpec::Bool(false))
        + prop_if(wanted(filter, "visible"@) && !m.visible, "visible"@, PropSpec::Bool(false))
}

pub open spec fn filter_view(filter: Seq<String>) -> Seq<Seq<char>> {
    filter.map_values(|f: String| f@)
}

/// Whether `key` is wanted under `filter`.
pub fn want(filter: &[String], key: &str) -> (r: bool)
    ensures
        r == wanted(filter_view(filter@), key@),
{
    if filter.len() == 0 {
        return true;
    }
    let ghost fv = filter_view(filter@);
    let mut i: usize = 0;
    while i < filter.len()
        invariant
            fv == filter_view(filter@),
            0 <= i <= filter@.len(),
            forall|k: int| 0 <= k < i ==> fv[k] != key@,
        decreases filter.len() - i,
    {
        if str_eq(filter[i].as_str(), key) {
            assert(fv[i as int] == key@);
            return true;
        }
        i = i + 1;
    }
    assert(!fv.contains(key@));
    false
}

/// Double every `_` of a label.
pub fn escape_label(label: &str) -> (r: String)
    ensures
        r@ == escape_underscores(label@),
{
    let cs = chars_of(label);
    let mut out: Vec<char> = Vec::new();
    let mut i: usize = 0;
    while i < cs.len()
        invariant
            0 <= i <= cs@.len(),
            out@ =~= escape_underscores(cs@.take(i as int)),
        decreases cs.len() - i,
    {
        assert(cs@.take(i + 1).drop_last() =~= cs@.take(i as int));
        if cs[i] == '_' {
            out.push('_');
            out.push('_');
        } else {
            out.push(cs[i]);
        }
        i = i + 1;
    }
    assert(cs@.take(cs@.len() as int) =~= cs@);
    string_from_chars(out.as_slice())
}

fn push_prop(v: &mut Vec<(String, PropValue)>, c: bool, key: &str, value: PropValue)
    ensures
        props_view(final(v)@) == props_view(old(v)@) + prop_if(c, key@, value@),
{
    if c {
        v.push((key.to_string(), value));
    }
    assert(props_view(final(v)@) =~= props_view(old(v)@) + prop_if(c, key@, value@));
}

/// The properties that depend on the kind of node (all but `enabled` / `visible`).
pub open spec fn main_props(m: MenuItem, filter: Seq<Seq<char>>) -> Seq<(Seq<char>, PropSpec)> {
    if m.is_separator {
        prop_if(wanted(filter, "type"@), "type"@, PropSpec::Str("separator"@))
    } else {
        prop_if(wanted(filter, "label"@), "label"@, PropSpec::Str(escape_underscores(m.label@)))
            + prop_if(m.children@.len() > 0 && wanted(filter, "children-display"@), "children-display"@, PropSpec::Str("submenu"@))
            + toggle_props(m, filter)
    }
}

/// The toggle properties of a node.
pub open spec fn toggle_props(m: MenuItem, filter: Seq<Seq<char>>) -> Seq<(Seq<char>, PropSpec)> {
    match m.toggle_type {
        ToggleType::Checkmark =>
            prop_if(wanted(filter, "toggle-type"@), "toggle-type"@, PropSpec::Str("checkmark"@))
            + prop_if(wanted(filter, "toggle-state"@), "toggle-state"@, PropSpec::Int(state_int(m.toggle_state))),
        ToggleType::Radio =>
            prop_if(wanted(filter, "toggle-type"@), "toggle-type"@, PropSpec::Str("radio"@))
            + prop_if(wanted(filter, "toggle-state"@), "toggle-state"@, PropSpec::Int(state_int(m.toggle_state))),
        ToggleType::Plain => seq![],
    }
}

proof fn lemma_props_parts(m: MenuItem, filter: Seq<Seq<char>>)
    ensures
        props_spec(m, filter) == main_props(m, filter)
            + prop_if(wanted(filter, "enabled"@) && !m.enabled, "enabled"@, PropSpec::Bool(false))
            + prop_if(wanted(filter, "visible"@) && !m.visible, "visible"@, PropSpec::Bool(false)),
{
}

/// Position of a property key in the order the properties are listed.
pub open spec fn key_rank(k: Seq<char>) -> int {
    if k == "type"@ {
        0
    } else if k == "label"@ {
        1
    } else if k == "children-display"@ {
        2
    } else if k == "toggle-type"@ {
        3
    } else if k == "toggle-state"@ {
        4
    } else if k == "enabled"@ {
        5
    } else {
        6
    }
}

/// No key occurs twice in a property list.
pub open spec fn keys_distinct(s: Seq<(Seq<char>, PropSpec)>) -> bool {
    forall|i: int, j: int| 0 <= i < j < s.len() ==> #[trigger] s[i].0 != #[trigger] s[j].0
}

/// Key ranks strictly increase along `s` and lie in `lo ..= hi`.
pub open spec fn rank_block(s: Seq<(Seq<char>, PropSpec)>, lo: int, hi: int) -> bool {
    &&& forall|i: int, j: int| 0 <= i < j < s.len() ==> key_rank(#[trigger] s[i].0) < key_rank(#[trigger] s[j].0)
    &&& forall|i: int| 0 <= i < s.len() ==> lo <= #[trigger] key_rank(s[i].0) <= hi
}

proof fn lemma_rank_concat(a: Seq<(Seq<char>, PropSpec)>, b: Seq<(Seq<char>, PropSpec)>, lo: int, mid: int, hi: int)
    requires
        rank_block(a, lo, mid),
        rank_block(b, mid + 1, hi),
        lo <= mid < hi,
    ensures
        rank_block(a + b, lo, hi),
{
    let c = a + b;
    assert forall|i: int, j: int| 0 <= i < j < c.len() implies key_rank(#[trigger] c[i].0) < key_rank(#[trigger] c[j].0) by {
        if j < a.len() {
            assert(c[i].0 == a[i].0 && c[j].0 == a[j].0);
        } else if i < a.len() {
            assert(c[i].0 == a[i].0 && c[j].0 == b[j - a.len()].0);
            assert(key_rank(a[i].0) <= mid && mid + 1 <= key_rank(b[j - a.len()].0));
        } else {
            assert(c[i].0 == b[i - a.len()].0 && c[j].0 == b[j - a.len()].0);
        }
    }
    assert forall|i: int| 0 <= i < c.len() implies lo <= #[trigger] key_rank(c[i].0) <= hi by {
        if i < a.len() {
            assert(c[i].0 == a[i].0);
            assert(lo <= key_rank(a[i].0) <= mid);
        } else {
            assert(c[i].0 == b[i - a.len()].0);
            assert(mid + 1 <= key_rank(b[i - a.len()].0) <= hi);
        }
    }
}

proof fn lemma_rank_single(c: bool, k: Seq<char>, v: PropSpec)
    ensures
        rank_block(prop_if(c, k, v), key_rank(k), key_rank(k)),
{
}

proof fn lemma_key_ranks()
    ensures
        key_rank("type"@) == 0,
        key_rank("label"@) == 1,
        key_rank("children-display"@) == 2,
        key_rank("toggle-type"@) == 3,
        key_rank("toggle-state"@) == 4,
        key_rank("enabled"@) == 5,
        key_rank("visible"@) == 6,
{
    reveal_strlit("type");
    reveal_strlit("label");
    reveal_strlit("children-display");
    reveal_strlit("toggle-type");
    reveal_strlit("toggle-state");
    reveal_strlit("enabled");
    reveal_strlit("visible");
    assert("type"@.len() == 4 && "label"@.len() == 5 && "children-display"@.len() == 16);
    assert("toggle-type"@.len() == 11 && "toggle-state"@.len() == 12);
    assert("enabled"@.len() == 7 && "visible"@.len() == 7 && "enabled"@[0] != "visible"@[0]);
    assert("label"@ != "type"@);
    assert("children-display"@ != "type"@ && "children-display"@ != "label"@);
    assert("toggle-type"@ != "type"@ && "toggle-type"@ != "label"@ && "toggle-type"@ != "children-display"@);
    assert("toggle-state"@ != "type"@ && "toggle-state"@ != "label"@ && "toggle-state"@ != "children-display"@
        && "toggle-state"@ != "toggle-type"@);
    assert("enabled"@ != "type"@ && "enabled"@ != "label"@ && "enabled"@ != "children-display"@
        && "enabled"@ != "toggle-type"@ && "enabled"@ != "toggle-state"@);
    assert("visible"@ != "type"@ && "visible"@ != "label"@ && "visible"@ != "children-display"@
        && "visible"@ != "toggle-type"@ && "visible"@ != "toggle-state"@ && "visible"@ != "enabled"@);
    assert(key_rank("type"@) == 0);
    assert(key_rank("label"@) == 1);
    assert(key_rank("children-display"@) == 2);
    assert(key_rank("toggle-type"@) == 3);
    assert(key_rank("toggle-state"@) == 4);
    assert(key_rank("enabled"@) == 5);
    assert(key_rank("visible"@) == 6);
}

/// The properties of a node never list a key twice (they stand for a map
/// from keys to values).
pub proof fn lemma_property_keys_distinct(m: MenuItem, filter: Seq<Seq<char>>)
    ensures
        keys_distinct(props_spec(m, filter)),
{
    lemma_key_ranks();
    let t = toggle_props(m, filter);
    let (tt, ts) = match m.toggle_type {
        ToggleType::Checkmark => (PropSpec::Str("checkmark"@), PropSpec::Int(state_int(m.toggle_state))),
        _ => (PropSpec::Str("radio"@), PropSpec::Int(state_int(m.toggle_state))),
    };
    if m.toggle_type == ToggleType::Plain {
        assert(rank_block(t, 3, 4));
    } else {
        lemma_rank_single(wanted(filter, "toggle-type"@), "toggle-type"@, tt);
        lemma_rank_single(wanted(filter, "toggle-state"@), "toggle-state"@, ts);
        lemma_rank_concat(prop_if(wanted(filter, "toggle-type"@), "toggle-type"@, tt),
            prop_if(wanted(filter, "toggle-state"@), "toggle-state"@, ts), 3, 3, 4);
    }
    let main = main_props(m, filter);
    if m.is_separator {
        lemma_rank_single(wanted(filter, "type"@), "type"@, PropSpec::Str("separator"@));
        assert(rank_block(main, 0, 4));
    } else {
        let l = prop_if(wanted(filter, "label"@), "label"@, PropSpec::Str(escape_underscores(m.label@)));
        let cd = prop_if(m.children@.len() > 0 && wanted(filter, "children-display"@), "children-display"@, PropSpec::Str("submenu"@));
        lemma_rank_single(wanted(filter, "label"@), "label"@, PropSpec::Str(escape_underscores(m.label@)));
        lemma_rank_single(m.children@.len() > 0 && wanted(filter, "children-display"@), "children-display"@, PropSpec::Str("submenu"@));
        lemma_rank_concat(l, cd, 0, 1, 2);
        lemma_rank_concat(l + cd, t, 0, 2, 4);
    }
    let e = prop_if(wanted(filter, "enabled"@) && !m.enabled, "enabled"@, PropSpec::Bool(false));
    let v = prop_if(wanted(filter, "visible"@) && !m.visible, "visible"@, PropSpec::Bool(false));
    lemma_rank_single(wanted(filter, "enabled"@) && !m.enabled, "enabled"@, PropSpec::Bool(false));
    lemma_rank_single(wanted(filter, "visible"@) && !m.visible, "visible"@, PropSpec::Bool(false));
    lemma_rank_concat(main, e, 0, 4, 5);
    lemma_rank_concat(main + e, v, 0, 5, 6);
    let all = props_spec(m, filter);
    assert(all == main + e + v);
    assert forall|i: int, j: int| 0 <= i < j < all.len() implies #[trigger] all[i].0 != #[trigger] all[j].0 by {
        assert(key_rank(all[i].0) < key_rank(all[j].0));
    }
}

impl MenuItem {
    fn push_toggle_props(&self, filter: &[String], map: &mut Vec<(String, PropValue)>)
        ensures
            props_view(final(map)@) =~= props_view(old(map)@) + toggle_props(*self, filter_view(filter@)),
    {
        proof {
            reveal_strlit("checkmark");
            reveal_strlit("radio");
        }
        match self.toggle_type {
            ToggleType::Checkmark => {
                push_prop(map, want(filter, "toggle-type"), "toggle-type", PropValue::Str("checkmark".to_string()));
                push_prop(map, want(filter, "toggle-state"), "toggle-state",
                    PropValue::Int(if self.toggle_state { 1 } else { 0 }));
            },
            ToggleType::Radio => {
                push_prop(map, want(filter, "toggle-type"), "toggle-type", PropValue::Str("radio".to_string()));
                push_prop(map, want(filter, "toggle-state"), "toggle-state",
                    PropValue::Int(if self.toggle_state { 1 } else { 0 }));
            },
            ToggleType::Plain => {},
        }
    }

    fn push_main_props(&self, filter: &[String], map: &mut Vec<(String, PropValue)>)
        ensures
            props_view(final(map)@) =~= props_view(old(map)@) + main_props(*self, filter_view(filter@)),
    {
        proof {
            reveal_strlit("separator");
            reveal_strlit("submenu");
        }
        if self.is_separator {
            push_prop(map, want(filter, "type"), "type", PropValue::Str("separator".to_string()));
        } else {
            let c = want(filter, "label");
            push_prop(map, c, "label", PropValue::Str(escape_label(self.label.as_str())));
            let c = self.children.len() > 0 && want(filter, "children-display");
            push_prop(map, c, "children-display", PropValue::Str("submenu".to_string()));
            self.push_toggle_props(filter, map);
        }
    }

    /// The DBusMenu properties of this node (only those in `filter` when it is non-empty).
    pub fn properties(&self, filter: &[String]) -> (r: Vec<(String, PropValue)>)
        ensures
            props_view(r@) == props_spec(*self, filter_view(filter@)),
    {
        let mut map: Vec<(String, PropValue)> = Vec::new();
        self.push_main_props(filter, &mut map);
        let c = want(filter, "enabled") && !self.enabled;
        push_prop(&mut map, c, "enabled", PropValue::Bool(false));
        let c = want(filter, "visible") && !self.visible;
        push_prop(&mut map, c, "visible", PropValue::Bool(false));
        proof { lemma_props_parts(*self, filter_view(filter@)); }
        assert(props_view(map@) =~= props_spec(*self, filter_view(filter@)));
        map
    }
}


/// One node of the layout returned by DBusMenu `GetLayout`.
pub struct LayoutItem {
    pub id: i32,
    pub props: Vec<(String, PropValue)>,
    pub children: Vec<LayoutItem>,
}

} // verus!
