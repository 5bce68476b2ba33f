//! The layout tree DBusMenu `GetLayout` returns for a menu subtree.

use vstd::prelude::*;
use crate::menu::{LayoutItem, MenuItem, props_spec, props_view, filter_view};

verus! {

/// Remaining depth below a node: -1 stays unlimited.
pub open spec fn next_depth(d: int) -> int {
    if d < 0 {
        -1
    } else {
        d - 1
    }
}

/// `l` is the layout of `m` down to `depth` levels (-1 for unlimited, 0 for
/// the node alone) with the properties restricted to `filter`.
pub open spec fn is_layout(l: LayoutItem, m: MenuItem, depth: int, filter: Seq<Seq<char>>) -> bool
    decreases m, 1int,
{
    &&& l.id == m.id
    &&& props_view(l.props@) == props_spec(m, filter)
    &&& if depth == 0 {
        l.children@.len() == 0
    } else {
        layouts_of(l.children@, m.children@, next_depth(depth), filter)
    }
}

/// Each `ls[i]` is the layout of `ms[i]`.
pub open spec fn layouts_of(ls: Seq<LayoutItem>, ms: Seq<MenuItem>, depth: int, filter: Seq<Seq<char>>) -> bool
    decreases ms, 0int,
{
    &&& ls.len() == ms.len()
    &&& (ms.len() == 0 || (layouts_of(ls.drop_last(), ms.drop_last(), depth, filter)
        && is_layout(ls.last(), ms.last(), depth, filter)))
}

proof fn lemma_layouts_push(ls: Seq<LayoutItem>, ms: Seq<MenuItem>, l: LayoutItem, m: MenuItem, depth: int, filter: Seq<Seq<char>>)
    requires
        layouts_of(ls, ms, depth, filter),
        is_layout(l, m, depth, filter),
    ensures
        layouts_of(ls.push(l), ms.push(m), depth, filter),
{
    assert(ls.push(l).drop_last() =~= ls);
    assert(ms.push(m).drop_last() =~= ms);
}

/// Each child layout is the layout of the corresponding child.
pub proof fn lemma_layouts_index(ls: Seq<LayoutItem>, ms: Seq<MenuItem>, depth: int, filter: Seq<Seq<char>>, i: int)
    requires
        layouts_of(ls, ms, depth, filter),
        0 <= i < ms.len(),
    ensures
        is_layout(ls[i], ms[i], depth, filter),
    decreases ms.len(),
{
    if i < ms.len() - 1 {
        lemma_layouts_index(ls.drop_last(), ms.drop_last(), depth, filter, i);
    }
}

impl MenuItem {
    /// The layout of this subtree for `GetLayout`: `depth` -1 is unlimited, 0 the
    /// node alone, n > 0 n more levels.
    pub fn to_layout(&self, depth: i32, filter: &[String]) -> (r: LayoutItem)
        ensures
            is_layout(r, *self, depth as int, filter_view(filter@)),
        decreases self,
    {
        let props = self.properties(filter);
        let mut children: Vec<LayoutItem> = Vec::new();
        if depth != 0 {
            let next: i32 = if depth < 0 { -1 } else { depth - 1 };
            let mut i: usize = 0;
            assert(self.children@.take(0) =~= seq![]);
            while i < self.children.len()
                invariant
                    depth != 0,
                    next as int == next_depth(depth as int),
                    0 <= i <= self.children@.len(),
                    layouts_of(children@, self.children@.take(i as int), next as int, filter_view(filter@)),
                decreases self.children.len() - i,
            {
                let c = self.children[i].to_layout(next, filter);
                proof {
                    lemma_layouts_push(children@, self.children@.take(i as int), c, self.children@[i as int], next as int, filter_view(filter@));
                    assert(self.children@.take(i as int).push(self.children@[i as int]) =~= self.children@.take(i + 1));
                }
                children.push(c);
                i = i + 1;
            }
            assert(self.children@.take(i as int) =~= self.children@);
        }
        LayoutItem { id: self.id, props, children }
    }
}

} // verus!
