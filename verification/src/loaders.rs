//! Which pictures to fetch: rank avatars and bookmark covers are requested
//! once per id, only when there is an address, and never again while one is
//! loaded, pending or failed.

use vstd::prelude::*;

verus! {

/// Ids and addresses as values.
pub open spec fn pairs_view(v: Seq<(i64, String)>) -> Seq<(i64, Seq<char>)> {
    v.map_values(|p: (i64, String)| (p.0, p.1@))
}

/// The ids of a list of requests.
pub open spec fn ids_of(v: Seq<(i64, Seq<char>)>) -> Seq<i64> {
    v.map_values(|p: (i64, Seq<char>)| p.0)
}

/// The requests to make for `items`, in order: those with an address whose
/// id is neither in `skip` nor requested earlier in the list.
pub open spec fn to_request(items: Seq<(i64, Seq<char>)>, skip: Seq<i64>) -> Seq<(i64, Seq<char>)>
    decreases items.len(),
{
    if items.len() == 0 {
        seq![]
    } else {
        let rest = to_request(items.drop_last(), skip);
        let it = items.last();
        if it.1.len() > 0 && !skip.contains(it.0) && !ids_of(rest).contains(it.0) {
            rest.push(it)
        } else {
            rest
        }
    }
}

/// Whether `x` is in `v`.
pub fn vec_has(v: &Vec<i64>, x: i64) -> (r: bool)
    ensures
        r == v@.contains(x),
{
    let mut i: usize = 0;
    while i < v.len()
        invariant
            i <= v.len(),
            forall|k: int| 0 <= k < i ==> v@[k] != x,
        decreases v.len() - i,
    {
        if v[i] == x {
            assert(v@[i as int] == x);
            return true;
        }
        i = i + 1;
    }
    false
}

fn has_id(v: &Vec<(i64, String)>, x: i64) -> (r: bool)
    ensures
        r == ids_of(pairs_view(v@)).contains(x),
{
    let ghost ids = ids_of(pairs_view(v@));
    let mut i: usize = 0;
    while i < v.len()
        invariant
            i <= v.len(),
            ids == ids_of(pairs_view(v@)),
            ids.len() == v@.len(),
            forall|k: int| 0 <= k < i ==> ids[k] != x,
        decreases v.len() - i,
    {
        if v[i].0 == x {
            assert(ids[i as int] == x);
            return true;
        }
        i = i + 1;
    }
    false
}

/// The requests to make for `items` (id and address), skipping the ids in
/// `skip` (loaded, pending or failed).
pub fn select_requests(items: &Vec<(i64, String)>, skip: &Vec<i64>) -> (r: Vec<(i64, String)>)
    ensures
        pairs_view(r@) == to_request(pairs_view(items@), skip@),
{
    let ghost all = pairs_view(items@);
    let mut out: Vec<(i64, String)> = Vec::new();
    let mut i: usize = 0;
    while i < items.len()
        invariant
            i <= items.len(),
            all == pairs_view(items@),
            pairs_view(out@) == to_request(all.take(i as int), skip@),
        decreases items.len() - i,
    {
        proof {
            assert(all.take(i + 1).drop_last() =~= all.take(i as int));
            assert(all.take(i + 1).last() == all[i as int]);
        }
        let id = items[i].0;
        if !items[i].1.as_str().is_empty() && !vec_has(skip, id) && !has_id(&out, id) {
            let ghost before = out@;
            out.push((id, items[i].1.clone()));
            proof {
                assert(pairs_view(out@) =~= pairs_view(before).push(all[i as int]));
            }
        }
        i = i + 1;
    }
    proof { assert(all.take(items.len() as int) =~= all); }
    out
}

/// No id is requested twice.
pub proof fn lemma_requests_distinct(items: Seq<(i64, Seq<char>)>, skip: Seq<i64>)
    ensures
        forall|i: int, j: int| 0 <= i < j < to_request(items, skip).len() ==>
            #[trigger] to_request(items, skip)[i].0 != #[trigger] to_request(items, skip)[j].0,
    decreases items.len(),
{
    if items.len() > 0 {
        lemma_requests_distinct(items.drop_last(), skip);
        let rest = to_request(items.drop_last(), skip);
        let r = to_request(items, skip);
        let it = items.last();
        if it.1.len() > 0 && !skip.contains(it.0) && !ids_of(rest).contains(it.0) {
            assert forall|i: int, j: int| 0 <= i < j < r.len() implies #[trigger] r[i].0 != #[trigger] r[j].0 by {
                if j == rest.len() {
                    assert(ids_of(rest)[i] == rest[i].0);
                } else {
                    assert(r[i] == rest[i] && r[j] == rest[j]);
                }
            }
        }
    }
}

/// What the bookmark page does with its covers in a frame: after the list
/// was dropped (neither loading nor loaded) the covers may be requested anew
/// and the record of requested ones is cleared; once the list is loaded the
/// covers are requested, one time. Returns the new "requested" flag, whether
/// to clear the record, and whether to request now.
pub fn cover_step(loading: bool, loaded: bool, triggered: bool) -> (r: (bool, bool, bool))
    ensures
        r.1 == (!loading && !loaded),
        r.2 == (loaded && !triggered),
        r.0 == (if loaded { true } else if !loading { false } else { triggered }),
{
    let mut t = triggered;
    let mut clear = false;
    if !loading && !loaded {
        t = false;
        clear = true;
    }
    let mut request = false;
    if loaded && !t {
        t = true;
        request = true;
    }
    (t, clear, request)
}

} // verus!
