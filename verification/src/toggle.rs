//! Updating the check state of menu items in place.

use vstd::prelude::*;
use crate::menu::{MenuItem, find_spec, find_in, lemma_find_in_step, lemma_find_in_prefix_some};

verus! {

/// Index of the first subtree in `s` that holds a node with the given id.
pub open spec fn first_holder(s: Seq<MenuItem>, id: i32) -> Option<nat>
    decreases s.len(),
{
    if s.len() == 0 {
        None
    } else if find_spec(s[0], id) is Some {
        Some(0)
    } else {
        match first_holder(s.drop_first(), id) {
            Some(i) => Some(i + 1),
            None => None,
        }
    }
}

/// `n` and `o` agree on everything but the check state and the children.
pub open spec fn same_head(o: MenuItem, n: MenuItem) -> bool {
    &&& n.id == o.id
    &&& n.label == o.label
    &&& n.is_separator == o.is_separator
    &&& n.enabled == o.enabled
    &&& n.visible == o.visible
    &&& n.toggle_type == o.toggle_type
}

/// `n` is `o` with the check state of its first node with `id` (depth-first,
/// pre-order) set to `st`, and nothing else changed.
pub open spec fn toggled(o: MenuItem, n: MenuItem, id: i32, st: bool) -> bool
    decreases o,
{
    &&& same_head(o, n)
    &&& if o.id == id {
        n.toggle_state == st && n.children@ == o.children@
    } else {
        &&& n.toggle_state == o.toggle_state
        &&& match first_holder(o.children@, id) {
            None => n.children@ == o.children@,
            Some(i) => {
                &&& i < o.children@.len()
                &&& n.children@.len() == o.children@.len()
                &&& n.children@ == o.children@.update(i as int, n.children@[i as int])
                &&& toggled(o.children@[i as int], n.children@[i as int], id, st)
            },
        }
    }
}

pub(crate) proof fn lemma_find_in_none_all(s: Seq<MenuItem>, id: i32)
    requires
        find_in(s, id) is None,
    ensures
        forall|k: int| 0 <= k < s.len() ==> #[trigger] find_spec(s[k], id) is None,
    decreases s.len(),
{
    if s.len() > 0 {
        lemma_find_in_none_all(s.drop_last(), id);
        assert forall|k: int| 0 <= k < s.len() implies #[trigger] find_spec(s[k], id) is None by {
            if k < s.len() - 1 {
                assert(s.drop_last()[k] == s[k]);
            }
        }
    }
}

pub(crate) proof fn lemma_first_holder_at(s: Seq<MenuItem>, id: i32, i: int)
    requires
        0 <= i < s.len(),
        find_spec(s[i], id) is Some,
        forall|k: int| 0 <= k < i ==> #[trigger] find_spec(s[k], id) is None,
    ensures
        first_holder(s, id) == Some(i as nat),
    decreases s.len(),
{
    if i > 0 {
        assert forall|k: int| 0 <= k < i - 1 implies #[trigger] find_spec(s.drop_first()[k], id) is None by {
            assert(s.drop_first()[k] == s[k + 1]);
        }
        lemma_first_holder_at(s.drop_first(), id, i - 1);
    }
}

/// A list in which no subtree holds `id` does not hold it.
pub(crate) proof fn lemma_find_in_all_none(s: Seq<MenuItem>, id: i32)
    requires
        forall|k: int| 0 <= k < s.len() ==> #[trigger] find_spec(s[k], id) is None,
    ensures
        find_in(s, id) is None,
    decreases s.len(),
{
    if s.len() > 0 {
        assert forall|k: int| 0 <= k < s.drop_last().len() implies #[trigger] find_spec(s.drop_last()[k], id) is None by {
            assert(s.drop_last()[k] == s[k]);
        }
        lemma_find_in_all_none(s.drop_last(), id);
        assert(find_spec(s[s.len() - 1], id) is None);
    }
}

/// What `first_holder` finds: the subtree at that index holds `id`, none before it does.
proof fn lemma_first_holder_some(s: Seq<MenuItem>, id: i32, i: nat)
    requires
        first_holder(s, id) == Some(i),
    ensures
        i < s.len(),
        find_spec(s[i as int], id) is Some,
        forall|k: int| 0 <= k < i ==> #[trigger] find_spec(s[k], id) is None,
    decreases s.len(),
{
    if find_spec(s[0], id) is None {
        lemma_first_holder_some(s.drop_first(), id, (i - 1) as nat);
        assert forall|k: int| 0 <= k < i implies #[trigger] find_spec(s[k], id) is None by {
            if k > 0 {
                assert(s[k] == s.drop_first()[k - 1]);
            }
        }
    }
}

/// A list that holds `id` has a first holder.
proof fn lemma_first_holder_exists(s: Seq<MenuItem>, id: i32)
    requires
        find_in(s, id) is Some,
    ensures
        first_holder(s, id) is Some,
    decreases s.len(),
{
    if first_holder(s, id) is None {
        lemma_first_holder_none_all(s, id);
        lemma_find_in_all_none(s, id);
    }
}

proof fn lemma_first_holder_none_all(s: Seq<MenuItem>, id: i32)
    requires
        first_holder(s, id) is None,
    ensures
        forall|k: int| 0 <= k < s.len() ==> #[trigger] find_spec(s[k], id) is None,
    decreases s.len(),
{
    if s.len() > 0 {
        lemma_first_holder_none_all(s.drop_first(), id);
        assert forall|k: int| 0 <= k < s.len() implies #[trigger] find_spec(s[k], id) is None by {
            if k > 0 {
                assert(s[k] == s.drop_first()[k - 1]);
            }
        }
    }
}

/// In a list where subtree `i` is the first to hold `id`, the search finds it there.
proof fn lemma_find_in_first(s: Seq<MenuItem>, id: i32, i: int)
    requires
        0 <= i < s.len(),
        find_spec(s[i], id) is Some,
        forall|k: int| 0 <= k < i ==> #[trigger] find_spec(s[k], id) is None,
    ensures
        find_in(s, id) == find_spec(s[i], id),
{
    assert forall|k: int| 0 <= k < s.take(i).len() implies #[trigger] find_spec(s.take(i)[k], id) is None by {
        assert(s.take(i)[k] == s[k]);
    }
    lemma_find_in_all_none(s.take(i), id);
    lemma_find_in_step(s, id, i);
    lemma_find_in_prefix_some(s, id, i + 1);
}

/// After setting the check state of item `id`, looking `id` up finds it with that state.
pub proof fn lemma_toggle_then_find(o: MenuItem, n: MenuItem, id: i32, st: bool)
    requires
        find_spec(o, id) is Some,
        toggled(o, n, id, st),
    ensures
        find_spec(n, id) matches Some(x) && x.id == id && x.toggle_state == st,
    decreases o,
{
    if o.id != id {
        lemma_first_holder_exists(o.children@, id);
        let i = first_holder(o.children@, id)->0;
        lemma_first_holder_some(o.children@, id, i);
        lemma_toggle_then_find(o.children@[i as int], n.children@[i as int], id, st);
        assert forall|k: int| 0 <= k < i implies #[trigger] find_spec(n.children@[k], id) is None by {
            assert(n.children@[k] == o.children@[k]);
        }
        lemma_find_in_first(n.children@, id, i as int);
    }
}

/// `n` is `o` with its first node with `id` (depth-first, pre-order)
/// replaced by `v`, and nothing else changed.
pub open spec fn replaced(o: MenuItem, n: MenuItem, id: i32, v: MenuItem) -> bool
    decreases o,
{
    if o.id == id {
        n == v
    } else {
        &&& same_head(o, n)
        &&& n.toggle_state == o.toggle_state
        &&& match first_holder(o.children@, id) {
            None => n.children@ == o.children@,
            Some(i) => {
                &&& i < o.children@.len()
                &&& n.children@.len() == o.children@.len()
                &&& n.children@ == o.children@.update(i as int, n.children@[i as int])
                &&& replaced(o.children@[i as int], n.children@[i as int], id, v)
            },
        }
    }
}

impl MenuItem {
    /// Mutable access to the first node with `id` (depth-first, the node itself first).
    pub fn find_mut(&mut self, id: i32) -> (r: Option<&mut MenuItem>)
        ensures
            r is None <==> find_spec(*old(self), id) is None,
            r is None ==> *final(self) == *old(self),
            r matches Some(x) ==> *x == find_spec(*old(self), id)->0,
            r matches Some(x) ==> replaced(*old(self), *final(self), id, *final(x)),
        decreases *old(self),
    {
        if self.id == id {
            return Some(self);
        }
        let mut i: usize = 0;
        assert(self.children@.take(0) =~= seq![]);
        while i < self.children.len()
            invariant
                *self == *old(self),
                self.id != id,
                0 <= i <= self.children@.len(),
                find_in(self.children@.take(i as int), id) is None,
            decreases self.children.len() - i,
        {
            proof { lemma_find_in_step(self.children@, id, i as int); }
            if self.children[i].find(id).is_some() {
                let ghost oc = self.children@;
                proof {
                    lemma_find_in_none_all(oc.take(i as int), id);
                    assert forall|k: int| 0 <= k < i implies #[trigger] find_spec(oc[k], id) is None by {
                        assert(oc.take(i as int)[k] == oc[k]);
                    }
                    lemma_first_holder_at(oc, id, i as int);
                    lemma_find_in_prefix_some(oc, id, (i + 1) as int);
                }
                return self.children[i].find_mut(id);
            }
            i = i + 1;
        }
        assert(self.children@.take(i as int) =~= self.children@);
        None
    }

    /// Set the check state of the first node with `id` (depth-first, the node
    /// itself first); returns whether there is such a node.
    pub fn set_toggle_state(&mut self, id: i32, st: bool) -> (found: bool)
        ensures
            found == (find_spec(*old(self), id) is Some),
            found ==> toggled(*old(self), *final(self), id, st),
            !found ==> *final(self) == *old(self),
        decreases *old(self),
    {
        if self.id == id {
            self.toggle_state = st;
            return true;
        }
        let mut i: usize = 0;
        assert(self.children@.take(0) =~= seq![]);
        while i < self.children.len()
            invariant
                *self == *old(self),
                self.id != id,
                0 <= i <= self.children@.len(),
                find_in(self.children@.take(i as int), id) is None,
            decreases self.children.len() - i,
        {
            proof { lemma_find_in_step(self.children@, id, i as int); }
            if self.children[i].find(id).is_some() {
                let ghost oc = self.children@;
                proof {
                    lemma_find_in_none_all(oc.take(i as int), id);
                    assert forall|k: int| 0 <= k < i implies #[trigger] find_spec(oc[k], id) is None by {
                        assert(oc.take(i as int)[k] == oc[k]);
                    }
                    lemma_first_holder_at(oc, id, i as int);
                    lemma_find_in_prefix_some(oc, id, (i + 1) as int);
                }
                let f = self.children[i].set_toggle_state(id, st);
                assert(self.children@ == oc.update(i as int, self.children@[i as int]));
                return true;
            }
            i = i + 1;
        }
        assert(self.children@.take(i as int) =~= self.children@);
        false
    }
}

} // verus!
