use vstd::prelude::*;
use crate::block::{
    DenseNodes, PrimitiveBlock, RawNode, dense_node_view, dense_ok, raw_node_ok, raw_node_view,
    run_end, run_ok, run_start, run_tags, tags_of,
};
use crate::delta::{delta_decoded, prefix_sum};
use crate::objects::{ObjV, OsmObj};
use crate::resolve::{has_id, is_closure, rejected, selected};

verus! {

/// With a predicate that turns down no object of the file, the closure holds
/// an object for every id of the file, each id once, and only objects of
/// the file.
pub proof fn lemma_closure_of_all<F: Fn(&OsmObj) -> bool>(pred: F, res: Seq<OsmObj>, file: Seq<ObjV>)
    requires
        is_closure(pred, res, file),
        forall|k: int| 0 <= k < file.len() ==> !rejected(pred, #[trigger] file[k]),
    ensures
        forall|k: int| 0 <= k < file.len() ==> has_id(res, (#[trigger] file[k]).id()),
        forall|i: int, j: int| 0 <= i < j < res.len() ==> (#[trigger] res[i])@.id() != (#[trigger] res[j])@.id(),
        forall|i: int| 0 <= i < res.len() ==> file.contains(#[trigger] res[i]@),
{
}

/// With a predicate that selects nothing, the closure is empty.
pub proof fn lemma_closure_of_none<F: Fn(&OsmObj) -> bool>(pred: F, res: Seq<OsmObj>, file: Seq<ObjV>)
    requires
        is_closure(pred, res, file),
        forall|v: ObjV| !selected(pred, v),
    ensures
        res.len() == 0,
{
    if res.len() > 0 {
        assert(!selected(pred, res[0]@));
        assert(res.subrange(0, 0).len() == 0);
    }
}

/// The (key, value) run that the bulk form gives one point with these tags:
/// the indices in pairs, then the separator.
pub open spec fn single_run(keys: Seq<u32>, vals: Seq<u32>) -> Seq<i32> {
    Seq::new(
        2 * keys.len() + 1,
        |p: int|
            if p == 2 * keys.len() {
                0i32
            } else if p % 2 == 0 {
                keys[p / 2] as i32
            } else {
                vals[p / 2] as i32
            },
    )
}

proof fn lemma_single_run_end(keys: Seq<u32>, vals: Seq<u32>, k: int)
    requires
        keys.len() == vals.len(),
        0 <= k <= keys.len(),
        forall|i: int| 0 <= i < keys.len() ==> 0 < #[trigger] keys[i] < 0x8000_0000,
    ensures
        run_end(single_run(keys, vals), 2 * k) == 2 * keys.len(),
    decreases keys.len() - k,
{
    let kv = single_run(keys, vals);
    if k < keys.len() {
        assert(kv[2 * k] == keys[k] as i32);
        lemma_single_run_end(keys, vals, k + 1);
    } else {
        assert(kv[2 * k] == 0);
    }
}

/// A point given in the individual form and the same point given in the
/// bulk form, as the only point of its group, decode to the same node.
pub proof fn lemma_same_node_both_forms(b: &PrimitiveBlock, n: &RawNode, d: &DenseNodes)
    requires
        raw_node_ok(b, n),
        forall|i: int| 0 <= i < n.keys@.len() ==> 0 < #[trigger] n.keys@[i] < 0x8000_0000,
        forall|i: int| 0 <= i < n.vals@.len() ==> #[trigger] n.vals@[i] < 0x8000_0000,
        d.id@ == seq![n.id],
        d.lat@ == seq![n.lat],
        d.lon@ == seq![n.lon],
        d.keys_vals@ == single_run(n.keys@, n.vals@),
    ensures
        dense_ok(b, d),
        dense_node_view(b, d, 0) == raw_node_view(b, n),
{
    let kv = d.keys_vals@;
    let st = b.strings();
    assert(prefix_sum(d.id@, 1) == prefix_sum(d.id@, 0) + d.id@[0]);
    assert(prefix_sum(d.lat@, 1) == prefix_sum(d.lat@, 0) + d.lat@[0]);
    assert(prefix_sum(d.lon@, 1) == prefix_sum(d.lon@, 0) + d.lon@[0]);
    assert(delta_decoded(d.id@)[0] == n.id);
    assert(delta_decoded(d.lat@)[0] == n.lat);
    assert(delta_decoded(d.lon@)[0] == n.lon);
    lemma_single_run_end(n.keys@, n.vals@, 0);
    assert(run_start(kv, 0) == 0);
    assert forall|p: int| 0 <= p < run_end(kv, 0) implies 0 <= #[trigger] kv[p] < st.len() by {
        if p % 2 == 0 {
            assert(kv[p] == n.keys@[p / 2] as i32);
        } else {
            assert(kv[p] == n.vals@[p / 2] as i32);
        }
    }
    assert(run_ok(st, kv, 0));
    assert forall|j: nat| j < d.id@.len() implies run_ok(st, kv, #[trigger] run_start(kv, j)) by {
        assert(j == 0);
    }
    let t1 = run_tags(st, kv, 0);
    let t2 = tags_of(st, n.keys@, n.vals@);
    assert forall|k: int| 0 <= k < t1.len() implies t1[k] == t2[k] by {
        assert(kv[2 * k] == n.keys@[k] as i32);
        assert(kv[2 * k + 1] == n.vals@[k] as i32);
    }
    assert(t1 =~= t2);
    assert(dense_node_view(b, d, 0).tags == t1);
}

} // verus!
